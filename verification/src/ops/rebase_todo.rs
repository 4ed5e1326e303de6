//! The in-app editor of an interactive rebase's todo (Magit's
//! git-rebase-mode). Starting a rebase lists `base..HEAD` as picks (applying
//! `--autosquash` here, since the app, not git, writes the todo); the plan is
//! edited with p/r/e/s/f/d and M-j/M-k and confirmed with C-c C-c, which runs
//! git with `GIT_SEQUENCE_EDITOR` set to copy the written plan into place.

use vstd::prelude::*;

use crate::git::client::GitOutput;
use crate::git::todo::{
    autosquash, autosquash_spec, entry_views, parse_todo, parse_todo_spec, TodoAction, TodoEntry, TodoEntryView,
};
use crate::ops::{cat, cat3, owned, push_all, push_arg, push_without, without, words};
use crate::session::{shell_quote, escape_quotes, str_views, string_views, EditorRequest};
use crate::text::{chars_of, lines, lines_exec, seqs, split_once, split_once_exec, string_of};

verus! {

/// The plan being edited, with the flags and base the rebase runs with
/// (`None`: editing the todo of a rebase in progress).
#[derive(Debug)]
pub struct RebaseTodoState {
    pub entries: Vec<TodoEntry>,
    pub flags: Vec<String>,
    pub base: Option<String>,
}

/// A `%h<US>%s` line of `git log` as a pick; lines without the separator
/// are skipped.
pub open spec fn log_picks(ls: Seq<Seq<char>>) -> Seq<TodoEntryView>
    decreases ls.len(),
{
    if ls.len() == 0 {
        Seq::empty()
    } else {
        let rest = log_picks(ls.drop_last());
        match split_once(ls.last(), seq!['\u{1f}']) {
            Some((h, s)) => rest.push(TodoEntryView { action: TodoAction::Pick, hash: h, subject: s }),
            None => rest,
        }
    }
}

/// The position of the first `f`, or -1.
pub open spec fn first_index(s: Seq<Seq<char>>, f: Seq<char>) -> int
    decreases s.len(),
{
    if s.len() == 0 {
        -1
    } else if s[0] == f {
        0
    } else {
        let r = first_index(s.drop_first(), f);
        if r < 0 {
            -1
        } else {
            r + 1
        }
    }
}

/// The first line of `s`, or nothing.
pub open spec fn first_line(s: Seq<char>) -> Seq<char> {
    if lines(s).len() > 0 {
        lines(s)[0]
    } else {
        Seq::empty()
    }
}

/// The plan an interactive rebase onto `base` starts with, from the output
/// of `git log --reverse --format=%h<US>%s base..HEAD`: every commit a pick,
/// `--interactive` dropped from the flags (it is what this editor is), and
/// `--autosquash` applied here and dropped too.
pub open spec fn todo_plan_spec(base: Seq<char>, flags: Seq<Seq<char>>, out: GitOutput) -> Result<
    (Seq<TodoEntryView>, Seq<Seq<char>>),
    Seq<char>,
> {
    if out.status != 0 {
        Err("rebase onto "@ + base + " failed: "@ + first_line(out.stderr@))
    } else {
        let es = log_picks(lines(out.stdout@));
        let fl = without(flags, "--interactive"@, "--interactive"@);
        let i = first_index(fl, "--autosquash"@);
        if es.len() == 0 {
            Err("no commits in "@ + base + "..HEAD"@)
        } else if i >= 0 {
            Ok((autosquash_spec(es), fl.remove(i)))
        } else {
            Ok((es, fl))
        }
    }
}

proof fn lemma_first_index(s: Seq<Seq<char>>, f: Seq<char>, i: int)
    requires
        0 <= i < s.len(),
        s[i] == f,
        forall|j: int| 0 <= j < i ==> s[j] != f,
    ensures
        first_index(s, f) == i,
    decreases s.len(),
{
    if i > 0 {
        lemma_first_index(s.drop_first(), f, i - 1);
    }
}

proof fn lemma_no_index(s: Seq<Seq<char>>, f: Seq<char>)
    requires
        forall|j: int| 0 <= j < s.len() ==> s[j] != f,
    ensures
        first_index(s, f) == -1,
    decreases s.len(),
{
    if s.len() > 0 {
        lemma_no_index(s.drop_first(), f);
    }
}

/// Starts an interactive rebase onto `base` from the `git log` read of the
/// commits to rebase; `Err` is the message to show.
pub fn todo_plan(base: &str, flags: &Vec<String>, out: &GitOutput) -> (r: Result<RebaseTodoState, String>)
    ensures
        match r {
            Ok(st) => todo_plan_spec(base@, string_views(flags@), *out) == Ok::<
                (Seq<TodoEntryView>, Seq<Seq<char>>),
                Seq<char>,
            >((entry_views(st.entries@), string_views(st.flags@))) && (st.base matches Some(b) && b@ == base@),
            Err(m) => todo_plan_spec(base@, string_views(flags@), *out) == Err::<
                (Seq<TodoEntryView>, Seq<Seq<char>>),
                Seq<char>,
            >(m@),
        },
{
    if out.status != 0 {
        let mut m = cat3("rebase onto ", base, " failed: ");
        let first = crate::activity::first_line_pub(out.stderr.as_str());
        crate::text::push_str(&mut m, first.as_str());
        return Err(m);
    }
    let cs = chars_of(out.stdout.as_str());
    let ls = lines_exec(&cs);
    let sep = vec!['\u{1f}'];
    assert(sep@ =~= seq!['\u{1f}']);
    let mut entries: Vec<TodoEntry> = Vec::new();
    let mut i: usize = 0;
    assert(seqs(ls@).take(0) =~= Seq::<Seq<char>>::empty());
    while i < ls.len()
        invariant
            i <= ls@.len(),
            sep@ == seq!['\u{1f}'],
            entry_views(entries@) == log_picks(seqs(ls@).take(i as int)),
        decreases ls.len() - i,
    {
        let ghost t = seqs(ls@).take(i + 1);
        assert(t.drop_last() =~= seqs(ls@).take(i as int));
        assert(t.last() == ls@[i as int]@);
        let ghost before = entry_views(entries@);
        match split_once_exec(&ls[i], &sep) {
            Some((h, s)) => {
                let e = TodoEntry { action: TodoAction::Pick, hash: string_of(&h), subject: string_of(&s) };
                entries.push(e);
                assert(entry_views(entries@) =~= before.push(
                    TodoEntryView { action: TodoAction::Pick, hash: h@, subject: s@ },
                ));
            },
            None => {},
        }
        i += 1;
    }
    assert(seqs(ls@).take(i as int) =~= seqs(ls@));
    if entries.len() == 0 {
        return Err(cat3("no commits in ", base, "..HEAD"));
    }
    let mut fl: Vec<String> = Vec::new();
    push_without(&mut fl, flags, "--interactive", "--interactive");
    assert(string_views(fl@) =~= Seq::<Seq<char>>::empty() + without(
        string_views(flags@),
        "--interactive"@,
        "--interactive"@,
    ));
    let auto = owned("--autosquash");
    let mut k: usize = 0;
    let mut found = false;
    while k < fl.len() && !found
        invariant
            k <= fl@.len(),
            auto@ == "--autosquash"@,
            found ==> k < fl@.len() && fl@[k as int]@ == auto@,
            forall|j: int| 0 <= j < k ==> fl@[j]@ != auto@,
        decreases fl.len() - k + if found { 0int } else { 1int },
    {
        if fl[k] == auto {
            found = true;
        } else {
            k += 1;
        }
    }
    let ghost fv = string_views(fl@);
    if found {
        proof {
            lemma_first_index(fv, "--autosquash"@, k as int);
        }
        fl.remove(k);
        assert(string_views(fl@) =~= fv.remove(k as int));
        let entries = autosquash(entries);
        Ok(RebaseTodoState { entries, flags: fl, base: Some(owned(base)) })
    } else {
        proof {
            lemma_no_index(fv, "--autosquash"@);
        }
        Ok(RebaseTodoState { entries, flags: fl, base: Some(owned(base)) })
    }
}

/// Editing the todo of the rebase in progress: the in-app editor when the
/// todo file parses to a non-empty plan, else git's own `--edit-todo` in
/// $EDITOR (plans with exec, break, ... or a non-interactive rebase).
pub open spec fn edit_todo_spec(text: Option<Seq<char>>) -> Option<Seq<TodoEntryView>> {
    match text {
        Some(t) => match parse_todo_spec(t) {
            Ok(es) => if es.len() > 0 {
                Some(es)
            } else {
                None
            },
            Err(_) => None,
        },
        None => None,
    }
}

pub fn edit_todo(text: Option<&str>) -> (r: Result<RebaseTodoState, EditorRequest>)
    ensures
        match r {
            Ok(st) => edit_todo_spec(
                match text {
                    Some(t) => Some(t@),
                    None => None,
                },
            ) == Some(entry_views(st.entries@)) && st.flags@.len() == 0 && st.base is None,
            Err(req) => edit_todo_spec(
                match text {
                    Some(t) => Some(t@),
                    None => None,
                },
            ) is None && req.desc@ == "rebase edit-todo"@ && string_views(req.args@) == seq![
                "rebase"@,
                "--edit-todo"@,
            ] && req.envs@.len() == 0,
        },
{
    if let Some(t) = text {
        if let Ok(entries) = parse_todo(t) {
            if entries.len() > 0 {
                return Ok(RebaseTodoState { entries, flags: Vec::new(), base: None });
            }
        }
    }
    let args = words(&["rebase", "--edit-todo"]);
    assert(str_views(["rebase", "--edit-todo"]@) =~= seq!["rebase"@, "--edit-todo"@]);
    Err(EditorRequest::new(owned("rebase edit-todo"), args))
}

/// The plan after setting the action of entry `i`; melding into the
/// previous commit needs a previous commit.
pub open spec fn set_action_spec(es: Seq<TodoEntryView>, i: int, a: TodoAction) -> Result<Seq<TodoEntryView>, Seq<char>> {
    if (a == TodoAction::Squash || a == TodoAction::Fixup) && i == 0 {
        Err("cannot meld into the commit before the rebase"@)
    } else {
        Ok(es.update(i, TodoEntryView { action: a, ..es[i] }))
    }
}

impl RebaseTodoState {
    /// The index of the entry with this hash (the commit under the cursor).
    pub fn index_of(&self, hash: &String) -> (r: Option<usize>)
        ensures
            match r {
                Some(i) => i < self.entries@.len() && self.entries@[i as int].hash@ == hash@ && forall|j: int|
                    0 <= j < i ==> self.entries@[j].hash@ != hash@,
                None => forall|j: int| 0 <= j < self.entries@.len() ==> self.entries@[j].hash@ != hash@,
            },
    {
        let mut i: usize = 0;
        while i < self.entries.len()
            invariant
                i <= self.entries@.len(),
                forall|j: int| 0 <= j < i ==> self.entries@[j].hash@ != hash@,
            decreases self.entries.len() - i,
        {
            if self.entries[i].hash == *hash {
                return Some(i);
            }
            i += 1;
        }
        None
    }

    /// Sets the action of entry `i` (p/r/e/s/f/d).
    pub fn set_action(&mut self, i: usize, action: TodoAction) -> (r: Result<(), String>)
        requires
            i < old(self).entries@.len(),
        ensures
            final(self).flags == old(self).flags,
            final(self).base == old(self).base,
            match set_action_spec(entry_views(old(self).entries@), i as int, action) {
                Ok(es) => r is Ok && entry_views(final(self).entries@) == es,
                Err(m) => r is Err && r->Err_0@ == m && final(self).entries@ == old(self).entries@,
            },
    {
        match action {
            TodoAction::Squash | TodoAction::Fixup => {
                if i == 0 {
                    return Err(owned("cannot meld into the commit before the rebase"));
                }
            },
            _ => {},
        }
        let ghost before = entry_views(self.entries@);
        let e = TodoEntry { action, hash: self.entries[i].hash.clone(), subject: self.entries[i].subject.clone() };
        self.entries.set(i, e);
        assert(entry_views(self.entries@) =~= before.update(i as int, TodoEntryView { action, ..before[i as int] }));
        Ok(())
    }

    /// Moves entry `i` one place up (`down == false`) or down; at either
    /// end nothing moves. Returns whether it moved.
    pub fn move_entry(&mut self, i: usize, down: bool) -> (r: bool)
        requires
            i < old(self).entries@.len(),
        ensures
            final(self).flags == old(self).flags,
            final(self).base == old(self).base,
            r == (if down {
                i + 1 < old(self).entries@.len()
            } else {
                i > 0
            }),
            r ==> final(self).entries@ == swap_spec(old(self).entries@, i as int, if down {
                i + 1
            } else {
                i - 1
            }),
            !r ==> final(self).entries@ == old(self).entries@,
    {
        let j = if down {
            if i >= self.entries.len() - 1 {
                return false;
            }
            i + 1
        } else {
            if i == 0 {
                return false;
            }
            i - 1
        };
        let ghost before = self.entries@;
        let a = TodoEntry {
            action: self.entries[i].action,
            hash: self.entries[i].hash.clone(),
            subject: self.entries[i].subject.clone(),
        };
        let b = TodoEntry {
            action: self.entries[j].action,
            hash: self.entries[j].hash.clone(),
            subject: self.entries[j].subject.clone(),
        };
        self.entries.set(i, b);
        self.entries.set(j, a);
        assert(self.entries@ =~= swap_spec(before, i as int, j as int));
        true
    }
}

/// `s` with the items at `i` and `j` exchanged.
pub open spec fn swap_spec<T>(s: Seq<T>, i: int, j: int) -> Seq<T> {
    s.update(i, s[j]).update(j, s[i])
}

/// Moving an entry one place and back again restores the plan.
pub proof fn law_move_round_trip<T>(s: Seq<T>, i: int)
    requires
        0 <= i,
        i + 1 < s.len(),
    ensures
        swap_spec(swap_spec(s, i, i + 1), i + 1, i) == s,
{
    assert(swap_spec(swap_spec(s, i, i + 1), i + 1, i) =~= s);
}

/// Every entry is a drop.
pub open spec fn all_dropped(es: Seq<TodoEntryView>) -> bool {
    forall|k: int| 0 <= k < es.len() ==> es[k].action == TodoAction::Drop
}

/// C-c C-c: the git run that installs and executes the plan written to
/// `plan_path`, in the foreground so reword and squash can open $EDITOR.
/// A plan that drops everything is refused.
pub open spec fn confirm_spec(
    es: Seq<TodoEntryView>,
    flags: Seq<Seq<char>>,
    base: Option<Seq<char>>,
    plan_path: Seq<char>,
) -> Result<(Seq<char>, Seq<Seq<char>>, Seq<char>), Seq<char>> {
    if all_dropped(es) {
        Err("every commit is dropped \u{2014} C-c C-k to abort instead"@)
    } else {
        let env = "cp "@ + (seq!['\''] + escape_quotes(plan_path) + seq!['\'']);
        match base {
            Some(b) => Ok(("interactive rebase onto "@ + b, seq!["rebase"@, "--interactive"@] + flags + seq![b], env)),
            None => Ok(("rebase edit-todo"@, seq!["rebase"@, "--edit-todo"@], env)),
        }
    }
}

/// Confirming a plan is refused exactly when every entry drops its commit;
/// a plan that keeps at least one commit runs: onto its base as
/// `rebase --interactive <flags> <base>`, or as `rebase --edit-todo` for a
/// stopped rebase, with the written plan installed as the sequence editor.
pub proof fn law_confirm_refuses_only_all_dropped(
    es: Seq<TodoEntryView>,
    flags: Seq<Seq<char>>,
    base: Option<Seq<char>>,
    plan_path: Seq<char>,
)
    ensures
        confirm_spec(es, flags, base, plan_path) is Err <==> (forall|k: int|
            0 <= k < es.len() ==> #[trigger] es[k].action == TodoAction::Drop),
        (exists|k: int| 0 <= k < es.len() && #[trigger] es[k].action != TodoAction::Drop) ==> ({
            let r = confirm_spec(es, flags, base, plan_path);
            &&& r is Ok
            &&& r->Ok_0.2 == "cp "@ + (seq!['\''] + escape_quotes(plan_path) + seq!['\''])
            &&& match base {
                Some(b) => r->Ok_0.1 == seq!["rebase"@, "--interactive"@] + flags + seq![b],
                None => r->Ok_0.1 == seq!["rebase"@, "--edit-todo"@],
            }
        }),
{
}

impl RebaseTodoState {
    /// The $EDITOR run that executes the plan once it is written to
    /// `plan_path` (the caller writes `serialize_todo(entries)` there).
    pub fn confirm(&self, plan_path: &str) -> (r: Result<EditorRequest, String>)
        ensures
            match confirm_spec(
                entry_views(self.entries@),
                string_views(self.flags@),
                match self.base {
                    Some(b) => Some(b@),
                    None => None,
                },
                plan_path@,
            ) {
                Ok((desc, args, env)) => r is Ok && r->Ok_0.desc@ == desc && string_views(r->Ok_0.args@) == args
                    && r->Ok_0.envs@.len() == 1 && r->Ok_0.envs@[0].0@ == "GIT_SEQUENCE_EDITOR"@
                    && r->Ok_0.envs@[0].1@ == env,
                Err(m) => r is Err && r->Err_0@ == m,
            },
    {
        let mut i: usize = 0;
        let mut dropped = true;
        while i < self.entries.len()
            invariant
                i <= self.entries@.len(),
                dropped == forall|k: int| 0 <= k < i ==> self.entries@[k].action == TodoAction::Drop,
            decreases self.entries.len() - i,
        {
            if self.entries[i].action != TodoAction::Drop {
                dropped = false;
            }
            i += 1;
        }
        assert(dropped == all_dropped(entry_views(self.entries@))) by {
            assert forall|k: int| 0 <= k < self.entries@.len() implies entry_views(self.entries@)[k].action
                == self.entries@[k].action by {}
        }
        if dropped {
            return Err(owned("every commit is dropped \u{2014} C-c C-k to abort instead"));
        }
        let (desc, args) = match &self.base {
            Some(b) => {
                let mut args = words(&["rebase", "--interactive"]);
                assert(str_views(["rebase", "--interactive"]@) =~= seq!["rebase"@, "--interactive"@]);
                push_all(&mut args, &self.flags);
                push_arg(&mut args, b.as_str());
                (cat("interactive rebase onto ", b.as_str()), args)
            },
            None => {
                let args = words(&["rebase", "--edit-todo"]);
                assert(str_views(["rebase", "--edit-todo"]@) =~= seq!["rebase"@, "--edit-todo"@]);
                (owned("rebase edit-todo"), args)
            },
        };
        let q = shell_quote(plan_path);
        let env = cat("cp ", q.as_str());
        let mut req = EditorRequest::new(desc, args);
        req.envs.push((owned("GIT_SEQUENCE_EDITOR"), env));
        Ok(req)
    }
}

} // verus!
