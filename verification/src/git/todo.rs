//! Pure rebase-todo logic backing the in-app todo editor (Magit's
//! git-rebase-mode): the entry model, parsing and serializing git's
//! `git-rebase-todo` format, and `--autosquash` reordering.

use vstd::prelude::*;

use crate::text::{
    debug_quoted, str_debug,
    chars_of, eq_chars, has_prefix, is_whitespace, lines, lines_exec, split_char, strip_cr, push_char, push_chars, push_str, seqs,
    split_once, split_once_exec, starts_with, string_of, strip_prefix, strip_prefix_str, trim,
    trim_exec, trim_end,
};

verus! {

/// The subset of todo instructions the in-app editor understands. Anything
/// else (`exec`, `break`, `merge`, ...) makes `parse_todo` bail so we fall
/// back to $EDITOR instead of silently corrupting the plan.
#[derive(Debug, Clone, Copy, PartialEq, Eq, Structural)]
pub enum TodoAction {
    Pick,
    Reword,
    Edit,
    Squash,
    Fixup,
    Drop,
}

pub open spec fn action_word(a: TodoAction) -> Seq<char> {
    match a {
        TodoAction::Pick => "pick"@,
        TodoAction::Reword => "reword"@,
        TodoAction::Edit => "edit"@,
        TodoAction::Squash => "squash"@,
        TodoAction::Fixup => "fixup"@,
        TodoAction::Drop => "drop"@,
    }
}

/// Both the long word and git's single-letter abbreviation.
pub open spec fn action_from_word(w: Seq<char>) -> Option<TodoAction> {
    if w == "pick"@ || w == "p"@ {
        Some(TodoAction::Pick)
    } else if w == "reword"@ || w == "r"@ {
        Some(TodoAction::Reword)
    } else if w == "edit"@ || w == "e"@ {
        Some(TodoAction::Edit)
    } else if w == "squash"@ || w == "s"@ {
        Some(TodoAction::Squash)
    } else if w == "fixup"@ || w == "f"@ {
        Some(TodoAction::Fixup)
    } else if w == "drop"@ || w == "d"@ {
        Some(TodoAction::Drop)
    } else {
        None
    }
}

impl TodoAction {
    /// The instruction word git's sequencer reads.
    pub fn word(self) -> (r: &'static str)
        ensures
            r@ == action_word(self),
    {
        match self {
            TodoAction::Pick => "pick",
            TodoAction::Reword => "reword",
            TodoAction::Edit => "edit",
            TodoAction::Squash => "squash",
            TodoAction::Fixup => "fixup",
            TodoAction::Drop => "drop",
        }
    }

    /// Both the long word and git's single-letter abbreviation.
    fn from_word(w: &Vec<char>) -> (r: Option<Self>)
        ensures
            r == action_from_word(w@),
    {
        if eq_chars(w, &chars_of("pick")) || eq_chars(w, &chars_of("p")) {
            Some(TodoAction::Pick)
        } else if eq_chars(w, &chars_of("reword")) || eq_chars(w, &chars_of("r")) {
            Some(TodoAction::Reword)
        } else if eq_chars(w, &chars_of("edit")) || eq_chars(w, &chars_of("e")) {
            Some(TodoAction::Edit)
        } else if eq_chars(w, &chars_of("squash")) || eq_chars(w, &chars_of("s")) {
            Some(TodoAction::Squash)
        } else if eq_chars(w, &chars_of("fixup")) || eq_chars(w, &chars_of("f")) {
            Some(TodoAction::Fixup)
        } else if eq_chars(w, &chars_of("drop")) || eq_chars(w, &chars_of("d")) {
            Some(TodoAction::Drop)
        } else {
            None
        }
    }
}

#[derive(Debug, Clone, PartialEq, Eq)]
pub struct TodoEntry {
    pub action: TodoAction,
    /// Abbreviated commit hash, also the entry's identity in the editor.
    pub hash: String,
    pub subject: String,
}

#[verifier::ext_equal]
pub struct TodoEntryView {
    pub action: TodoAction,
    pub hash: Seq<char>,
    pub subject: Seq<char>,
}

impl View for TodoEntry {
    type V = TodoEntryView;

    open spec fn view(&self) -> TodoEntryView {
        TodoEntryView { action: self.action, hash: self.hash@, subject: self.subject@ }
    }
}

pub open spec fn entry_views(v: Seq<TodoEntry>) -> Seq<TodoEntryView> {
    v.map_values(|e: TodoEntry| e@)
}

impl TodoEntry {
    /// A copy of the entry.
    pub fn copy(&self) -> (r: TodoEntry)
        ensures
            r@ == self@,
    {
        TodoEntry { action: self.action, hash: self.hash.clone(), subject: self.subject.clone() }
    }
}

/// `splitn(3, ' ')`: the word, then the hash, then the rest.
pub open spec fn todo_parts(t: Seq<char>) -> (Seq<char>, Option<Seq<char>>, Option<Seq<char>>) {
    match split_once(t, seq![' ']) {
        None => (t, None, None),
        Some((w, r)) => match split_once(r, seq![' ']) {
            None => (w, Some(r), None),
            Some((h, s)) => (w, Some(h), Some(s)),
        },
    }
}

/// One line of a todo file; the first error sticks.
pub open spec fn todo_step(acc: Result<Seq<TodoEntryView>, Seq<char>>, line: Seq<char>) -> Result<
    Seq<TodoEntryView>,
    Seq<char>,
> {
    match acc {
        Err(e) => Err(e),
        Ok(es) => {
            let t = trim(line);
            if t.len() == 0 || starts_with(t, seq!['#']) {
                Ok(es)
            } else {
                let (word, hash, subject) = todo_parts(t);
                match action_from_word(word) {
                    None => Err("unsupported todo instruction "@ + str_debug(word)),
                    Some(action) => match hash {
                        None => Err("malformed todo line "@ + str_debug(t)),
                        Some(h) => Ok(
                            es.push(
                                TodoEntryView {
                                    action: action,
                                    hash: h,
                                    subject: match subject {
                                        Some(s) => s,
                                        None => Seq::empty(),
                                    },
                                },
                            ),
                        ),
                    },
                }
            }
        },
    }
}

pub open spec fn todo_fold(ls: Seq<Seq<char>>) -> Result<Seq<TodoEntryView>, Seq<char>>
    decreases ls.len(),
{
    if ls.len() == 0 {
        Ok(Seq::empty())
    } else {
        todo_step(todo_fold(ls.drop_last()), ls.last())
    }
}

/// The plan a `git-rebase-todo` text describes, or the first problem.
pub open spec fn parse_todo_spec(text: Seq<char>) -> Result<Seq<TodoEntryView>, Seq<char>> {
    todo_fold(lines(text))
}

/// Parse a `git-rebase-todo` file. Comments and blank lines are dropped.
/// `Err` names the first unsupported instruction, so the caller can fall
/// back to $EDITOR for plans the editor cannot represent.
pub fn parse_todo(text: &str) -> (r: Result<Vec<TodoEntry>, String>)
    ensures
        r is Ok ==> parse_todo_spec(text@) == Ok::<Seq<TodoEntryView>, Seq<char>>(
            entry_views(r->Ok_0@),
        ),
        r is Err ==> parse_todo_spec(text@) == Err::<Seq<TodoEntryView>, Seq<char>>(r->Err_0@),
{
    let chars = chars_of(text);
    let ls = lines_exec(&chars);
    let mut out: Vec<TodoEntry> = Vec::new();
    let sp = vec![' '];
    assert(sp@ =~= seq![' ']);
    let hash_mark = vec!['#'];
    assert(hash_mark@ =~= seq!['#']);
    let mut i: usize = 0;
    assert(seqs(ls@).subrange(0, 0) =~= Seq::<Seq<char>>::empty());
    assert(entry_views(out@) =~= Seq::<TodoEntryView>::empty());
    while i < ls.len()
        invariant
            i <= ls.len(),
            sp@ == seq![' '],
            hash_mark@ == seq!['#'],
            chars@ == text@,
            seqs(ls@) == lines(chars@),
            todo_fold(seqs(ls@).subrange(0, i as int)) == Ok::<Seq<TodoEntryView>, Seq<char>>(
                entry_views(out@),
            ),
        decreases ls.len() - i,
    {
        let ghost pre = seqs(ls@).subrange(0, i as int);
        proof {
            assert(seqs(ls@).subrange(0, i + 1).drop_last() =~= pre);
            assert(seqs(ls@).subrange(0, i + 1).last() == ls@[i as int]@);
        }
        let t = trim_exec(&ls[i]);
        if t.len() == 0 || has_prefix(&t, &hash_mark) {
            i += 1;
            continue;
        }
        let (word, hash, subject) = match split_once_exec(&t, &sp) {
            None => (subvec_all(&t), None, None),
            Some((w, r)) => match split_once_exec(&r, &sp) {
                None => (w, Some(r), None),
                Some((h, s)) => (w, Some(h), Some(s)),
            },
        };
        proof {
            let parts = todo_parts(t@);
            assert(parts.0 == word@);
            assert(parts.1 == (match hash {
                Some(h) => Some(h@),
                None => None::<Seq<char>>,
            }));
            assert(parts.2 == (match subject {
                Some(s) => Some(s@),
                None => None::<Seq<char>>,
            }));
            assert(t@ == trim(seqs(ls@)[i as int]));
        }
        let action = match TodoAction::from_word(&word) {
            Some(a) => a,
            None => {
                let mut msg = String::new();
                push_str(&mut msg, "unsupported todo instruction ");
                let w = string_of(&word);
                let q = debug_quoted(w.as_str());
                push_str(&mut msg, q.as_str());
                proof {
                    assert(msg@ =~= "unsupported todo instruction "@ + str_debug(word@));
                    lemma_todo_fold_err_sticks(seqs(ls@), i as int + 1, msg@);
                    assert(seqs(ls@).subrange(0, ls@.len() as int) =~= seqs(ls@));
                }
                return Err(msg);
            },
        };
        let hash = match hash {
            Some(h) => h,
            None => {
                let mut msg = String::new();
                push_str(&mut msg, "malformed todo line ");
                let ts = string_of(&t);
                let q = debug_quoted(ts.as_str());
                push_str(&mut msg, q.as_str());
                proof {
                    assert(msg@ =~= "malformed todo line "@ + str_debug(t@));
                    lemma_todo_fold_err_sticks(seqs(ls@), i as int + 1, msg@);
                    assert(seqs(ls@).subrange(0, ls@.len() as int) =~= seqs(ls@));
                }
                return Err(msg);
            },
        };
        let subject = match subject {
            Some(s) => string_of(&s),
            None => String::new(),
        };
        let e = TodoEntry { action, hash: string_of(&hash), subject };
        let ghost before = out@;
        out.push(e);
        assert(entry_views(out@) =~= entry_views(before).push(e@));
        i += 1;
    }
    assert(seqs(ls@).subrange(0, ls@.len() as int) =~= seqs(ls@));
    Ok(out)
}

fn subvec_all(v: &Vec<char>) -> (r: Vec<char>)
    ensures
        r@ == v@,
{
    let r = crate::text::subvec(v, 0, v.len());
    assert(v@.subrange(0, v@.len() as int) =~= v@);
    r
}

/// Once a prefix of the lines fails, the whole file fails the same way.
proof fn lemma_todo_fold_err_sticks(ls: Seq<Seq<char>>, k: int, e: Seq<char>)
    requires
        0 <= k <= ls.len(),
        todo_fold(ls.subrange(0, k)) == Err::<Seq<TodoEntryView>, Seq<char>>(e),
    ensures
        todo_fold(ls) == Err::<Seq<TodoEntryView>, Seq<char>>(e),
    decreases ls.len() - k,
{
    if k < ls.len() {
        assert(ls.subrange(0, k + 1).drop_last() =~= ls.subrange(0, k));
        lemma_todo_fold_err_sticks(ls, k + 1, e);
    } else {
        assert(ls.subrange(0, k) =~= ls);
    }
}

/// Whether a todo line carries an instruction (not blank, not a comment).
pub open spec fn todo_relevant(line: Seq<char>) -> bool {
    let t = trim(line);
    t.len() > 0 && !starts_with(t, seq!['#'])
}

/// The entry an instruction line describes, if it is one this parser
/// understands.
pub open spec fn todo_entry_of(line: Seq<char>) -> Option<TodoEntryView> {
    if !todo_relevant(line) {
        None
    } else {
        let (word, hash, subject) = todo_parts(trim(line));
        match (action_from_word(word), hash) {
            (Some(action), Some(h)) => Some(
                TodoEntryView {
                    action: action,
                    hash: h,
                    subject: match subject {
                        Some(s) => s,
                        None => Seq::empty(),
                    },
                },
            ),
            _ => None,
        }
    }
}

/// An instruction line the parser refuses: an unknown word, or no hash.
pub open spec fn todo_bad(line: Seq<char>) -> bool {
    todo_relevant(line) && todo_entry_of(line) is None
}

/// What a refused line is reported as.
pub open spec fn todo_line_error(line: Seq<char>) -> Seq<char> {
    let t = trim(line);
    let (word, hash, subject) = todo_parts(t);
    if action_from_word(word) is None {
        "unsupported todo instruction "@ + str_debug(word)
    } else {
        "malformed todo line "@ + str_debug(t)
    }
}

/// The entries of the instruction lines, in order.
pub open spec fn todo_entries(ls: Seq<Seq<char>>) -> Seq<TodoEntryView> {
    ls.filter_map(|l: Seq<char>| todo_entry_of(l))
}

/// Parsing a todo file: without a refused line it gives one entry per
/// instruction line, in order (blank and comment lines dropped); otherwise
/// it fails, naming the first refused line.
pub proof fn law_parse_todo(ls: Seq<Seq<char>>, k: int)
    ensures
        (forall|i: int| 0 <= i < ls.len() ==> !todo_bad(#[trigger] ls[i])) ==> todo_fold(ls) == Ok::<
            Seq<TodoEntryView>,
            Seq<char>,
        >(todo_entries(ls)),
        0 <= k < ls.len() && todo_bad(ls[k]) && (forall|i: int| 0 <= i < k ==> !todo_bad(#[trigger] ls[i]))
            ==> todo_fold(ls) == Err::<Seq<TodoEntryView>, Seq<char>>(todo_line_error(ls[k])),
    decreases ls.len(),
{
    if ls.len() > 0 {
        let init = ls.drop_last();
        law_parse_todo(init, k);
        if forall|i: int| 0 <= i < ls.len() ==> !todo_bad(#[trigger] ls[i]) {
            assert forall|i: int| 0 <= i < init.len() implies !todo_bad(#[trigger] init[i]) by {
                assert(init[i] == ls[i]);
            }
            let f = |l: Seq<char>| todo_entry_of(l);
            assert(todo_entries(ls) == (match f(ls.last()) {
                Some(e) => init.filter_map(f) + seq![e],
                None => init.filter_map(f),
            }));
            assert(!todo_bad(ls[ls.len() - 1]));
            match todo_entry_of(ls.last()) {
                Some(e) => {
                    assert(todo_entries(init).push(e) =~= todo_entries(init) + seq![e]);
                },
                None => {},
            }
        }
        if 0 <= k < ls.len() && todo_bad(ls[k]) && (forall|i: int| 0 <= i < k ==> !todo_bad(#[trigger] ls[i])) {
            let pre = ls.subrange(0, k);
            law_parse_todo(pre, k);
            assert forall|i: int| 0 <= i < pre.len() implies !todo_bad(#[trigger] pre[i]) by {
                assert(pre[i] == ls[i]);
            }
            let upto = ls.subrange(0, k + 1);
            assert(upto.drop_last() =~= pre);
            assert(upto.last() == ls[k]);
            assert(todo_fold(upto) == Err::<Seq<TodoEntryView>, Seq<char>>(todo_line_error(ls[k])));
            lemma_todo_fold_err_sticks(ls, k + 1, todo_line_error(ls[k]));
        }
    } else {
        assert(todo_entries(ls) =~= Seq::<TodoEntryView>::empty());
    }
}

/// The line git's sequencer reads for one entry, without its newline.
pub open spec fn todo_line(e: TodoEntryView) -> Seq<char> {
    if e.subject.len() == 0 {
        action_word(e.action) + seq![' '] + e.hash
    } else {
        action_word(e.action) + seq![' '] + e.hash + seq![' '] + e.subject
    }
}

pub open spec fn serialize_todo_spec(es: Seq<TodoEntryView>) -> Seq<char>
    decreases es.len(),
{
    if es.len() == 0 {
        Seq::empty()
    } else {
        serialize_todo_spec(es.drop_last()) + todo_line(es.last()) + seq!['\n']
    }
}

/// Serialize entries back into the format git's sequencer reads. `drop`
/// lines are written out (rather than omitted) so the intent stays visible
/// in the file.
pub fn serialize_todo(entries: &[TodoEntry]) -> (r: String)
    ensures
        r@ == serialize_todo_spec(entries@.map_values(|e: TodoEntry| e@)),
{
    let ghost es = entries@.map_values(|e: TodoEntry| e@);
    let mut out = String::new();
    let mut i: usize = 0;
    assert(es.subrange(0, 0) =~= Seq::<TodoEntryView>::empty());
    while i < entries.len()
        invariant
            i <= entries.len(),
            es == entries@.map_values(|e: TodoEntry| e@),
            out@ == serialize_todo_spec(es.subrange(0, i as int)),
        decreases entries.len() - i,
    {
        let e = &entries[i];
        let ghost before = out@;
        push_str(&mut out, e.action.word());
        push_char(&mut out, ' ');
        push_str(&mut out, e.hash.as_str());
        if !e.subject.as_str().is_empty() {
            push_char(&mut out, ' ');
            push_str(&mut out, e.subject.as_str());
        }
        push_char(&mut out, '\n');
        i += 1;
        assert(es.subrange(0, i as int).drop_last() =~= es.subrange(0, i - 1));
        assert(es.subrange(0, i as int).last() == e@);

        assert(out@ =~= before + todo_line(e@) + seq!['\n']);
    }
    assert(es.subrange(0, es.len() as int) =~= es);
    out
}

/// The action and target-subject prefix encoded in a `fixup!`/`squash!`
/// marker subject, `None` for ordinary commits.
pub open spec fn target_of_spec(subject: Seq<char>) -> Option<(TodoAction, Seq<char>)> {
    match strip_prefix(subject, "fixup! "@) {
        Some(rest) => Some((TodoAction::Fixup, rest)),
        None => match strip_prefix(subject, "squash! "@) {
            Some(rest) => Some((TodoAction::Squash, rest)),
            None => None,
        },
    }
}

fn target_of(e: &TodoEntry) -> (r: Option<(TodoAction, Vec<char>)>)
    ensures
        match r {
            Some((a, rest)) => target_of_spec(e@.subject) == Some((a, rest@)),
            None => target_of_spec(e@.subject) is None,
        },
{
    let s = chars_of(e.subject.as_str());
    if let Some(rest) = strip_prefix_str(&s, "fixup! ") {
        Some((TodoAction::Fixup, rest))
    } else if let Some(rest) = strip_prefix_str(&s, "squash! ") {
        Some((TodoAction::Squash, rest))
    } else {
        None
    }
}

/// The action a marker subject asks for (`Pick` for ordinary subjects).
pub open spec fn marker_action(subject: Seq<char>) -> TodoAction {
    match target_of_spec(subject) {
        Some((a, _)) => a,
        None => TodoAction::Pick,
    }
}

/// The target-subject prefix of a marker subject.
pub open spec fn marker_rest(subject: Seq<char>) -> Seq<char> {
    match target_of_spec(subject) {
        Some((_, rest)) => rest,
        None => Seq::empty(),
    }
}

pub open spec fn is_base(e: TodoEntryView) -> bool {
    target_of_spec(e.subject) is None
}

/// `e` is an ordinary commit whose subject starts with `rest`.
pub open spec fn base_matches(e: TodoEntryView, rest: Seq<char>) -> bool {
    is_base(e) && starts_with(e.subject, rest)
}

/// Index of the first ordinary commit whose subject starts with `rest`.
pub open spec fn first_base(es: Seq<TodoEntryView>, rest: Seq<char>) -> Option<int>
    decreases es.len(),
{
    if es.len() == 0 {
        None
    } else {
        match first_base(es.drop_last(), rest) {
            Some(b) => Some(b),
            None => if base_matches(es.last(), rest) {
                Some(es.len() - 1)
            } else {
                None
            },
        }
    }
}

proof fn lemma_first_base(es: Seq<TodoEntryView>, rest: Seq<char>)
    ensures
        match first_base(es, rest) {
            Some(b) => 0 <= b < es.len() && base_matches(es[b], rest),
            None => forall|j: int| 0 <= j < es.len() ==> !base_matches(#[trigger] es[j], rest),
        },
    decreases es.len(),
{
    if es.len() > 0 {
        lemma_first_base(es.drop_last(), rest);
        match first_base(es.drop_last(), rest) {
            Some(b) => {},
            None => {
                assert forall|j: int| 0 <= j < es.len() - 1 implies !base_matches(
                    #[trigger] es[j],
                    rest,
                ) by {
                    assert(es.drop_last()[j] == es[j]);
                }
            },
        }
    }
}

/// The target a marker entry moves after, if any.
pub open spec fn marker_target(es: Seq<TodoEntryView>, m: TodoEntryView) -> Option<int> {
    match target_of_spec(m.subject) {
        Some((_, rest)) => first_base(es, rest),
        None => None,
    }
}

/// A marker is movable only when some ordinary commit matches it.
pub open spec fn movable(es: Seq<TodoEntryView>, e: TodoEntryView) -> bool {
    marker_target(es, e) is Some
}

/// The markers (of `ms`, in order) whose target has the hash of `e`, with
/// their action set from the marker.
pub open spec fn attached(es: Seq<TodoEntryView>, ms: Seq<TodoEntryView>, e: TodoEntryView) -> Seq<
    TodoEntryView,
>
    decreases ms.len(),
{
    if ms.len() == 0 {
        Seq::empty()
    } else {
        let m = ms.last();
        let prev = attached(es, ms.drop_last(), e);
        match marker_target(es, m) {
            Some(b) => if es[b].hash == e.hash {
                prev.push(TodoEntryView { action: marker_action(m.subject), ..m })
            } else {
                prev
            },
            None => prev,
        }
    }
}

/// What entry `e` contributes to the reordered plan.
pub open spec fn autosquash_piece(es: Seq<TodoEntryView>, e: TodoEntryView) -> Seq<TodoEntryView> {
    if movable(es, e) {
        Seq::empty()
    } else if !is_base(e) {
        seq![e]
    } else {
        seq![e] + attached(es, es, e)
    }
}

pub open spec fn autosquash_fold(es: Seq<TodoEntryView>, ps: Seq<TodoEntryView>) -> Seq<
    TodoEntryView,
>
    decreases ps.len(),
{
    if ps.len() == 0 {
        Seq::empty()
    } else {
        autosquash_fold(es, ps.drop_last()) + autosquash_piece(es, ps.last())
    }
}

/// `--autosquash`: every marker with a target moves right after it.
pub open spec fn autosquash_spec(es: Seq<TodoEntryView>) -> Seq<TodoEntryView> {
    autosquash_fold(es, es)
}

/// `--autosquash` for a todo we generate ourselves: move each `fixup!`/
/// `squash!` commit directly after its target (the earliest non-marker
/// commit whose subject starts with the rest of the marker subject) and set
/// its action accordingly. Markers without a target stay where they are, as
/// plain picks — same as git.
pub fn autosquash(entries: Vec<TodoEntry>) -> (r: Vec<TodoEntry>)
    ensures
        entry_views(r@) == autosquash_spec(entry_views(entries@)),
{
    let ghost es = entry_views(entries@);
    let n = entries.len();
    // The marker action and target prefix of every entry.
    let mut targets: Vec<Option<(TodoAction, Vec<char>)>> = Vec::new();
    let mut subjects: Vec<Vec<char>> = Vec::new();
    let mut i: usize = 0;
    while i < n
        invariant
            n == entries.len(),
            es == entry_views(entries@),
            i <= n,
            targets@.len() == i,
            subjects@.len() == i,
            forall|k: int| 0 <= k < i ==> #[trigger] subjects@[k]@ == es[k].subject,
            forall|k: int|
                0 <= k < i ==> match #[trigger] targets@[k] {
                    Some((a, rest)) => target_of_spec(es[k].subject) == Some((a, rest@)),
                    None => target_of_spec(es[k].subject) is None,
                },
        decreases n - i,
    {
        targets.push(target_of(&entries[i]));
        subjects.push(chars_of(entries[i].subject.as_str()));
        i += 1;
    }
    // The first matching ordinary commit of every marker.
    let mut firsts: Vec<Option<usize>> = Vec::new();
    let mut m: usize = 0;
    while m < n
        invariant
            n == entries.len(),
            es == entry_views(entries@),
            targets@.len() == n,
            subjects@.len() == n,
            forall|k: int| 0 <= k < n ==> #[trigger] subjects@[k]@ == es[k].subject,
            forall|k: int|
                0 <= k < n ==> match #[trigger] targets@[k] {
                    Some((a, rest)) => target_of_spec(es[k].subject) == Some((a, rest@)),
                    None => target_of_spec(es[k].subject) is None,
                },
            m <= n,
            firsts@.len() == m,
            forall|k: int|
                0 <= k < m ==> match #[trigger] firsts@[k] {
                    Some(b) => marker_target(es, es[k]) == Some(b as int),
                    None => marker_target(es, es[k]) is None,
                },
        decreases n - m,
    {
        let mut found: Option<usize> = None;
        match &targets[m] {
            Some((_, rest)) => {
                let mut j: usize = 0;
                assert(es.subrange(0, 0) =~= Seq::<TodoEntryView>::empty());
                while j < n
                    invariant
                        n == entries.len(),
                        es == entry_views(entries@),
                        targets@.len() == n,
                        subjects@.len() == n,
                        forall|k: int| 0 <= k < n ==> #[trigger] subjects@[k]@ == es[k].subject,
                        forall|k: int|
                            0 <= k < n ==> match #[trigger] targets@[k] {
                                Some((a, rest)) => target_of_spec(es[k].subject) == Some(
                                    (a, rest@),
                                ),
                                None => target_of_spec(es[k].subject) is None,
                            },
                        j <= n,
                        found is Some ==> found->0 < j,
                        match found {
                            Some(b) => first_base(es.subrange(0, j as int), rest@) == Some(
                                b as int,
                            ),
                            None => first_base(es.subrange(0, j as int), rest@) is None,
                        },
                    decreases n - j,
                {
                    proof {
                        assert(es.subrange(0, j + 1).drop_last() =~= es.subrange(0, j as int));
                        assert(es.subrange(0, j + 1).last() == es[j as int]);
                    }
                    if found.is_none() && targets[j].is_none() && has_prefix(&subjects[j], rest) {
                        found = Some(j);
                    }
                    j += 1;
                }
                assert(es.subrange(0, n as int) =~= es);
            },
            None => {},
        }
        firsts.push(found);
        m += 1;
    }
    let mut out: Vec<TodoEntry> = Vec::new();
    let mut k: usize = 0;
    assert(es.subrange(0, 0) =~= Seq::<TodoEntryView>::empty());
    assert(entry_views(out@) =~= Seq::<TodoEntryView>::empty());
    while k < n
        invariant
            n == entries.len(),
            es == entry_views(entries@),
            targets@.len() == n,
            firsts@.len() == n,
            forall|q: int|
                0 <= q < n ==> match #[trigger] targets@[q] {
                    Some((a, rest)) => target_of_spec(es[q].subject) == Some((a, rest@)),
                    None => target_of_spec(es[q].subject) is None,
                },
            forall|q: int|
                0 <= q < n ==> match #[trigger] firsts@[q] {
                    Some(b) => marker_target(es, es[q]) == Some(b as int),
                    None => marker_target(es, es[q]) is None,
                },
            k <= n,
            entry_views(out@) == autosquash_fold(es, es.subrange(0, k as int)),
        decreases n - k,
    {
        proof {
            assert(es.subrange(0, k + 1).drop_last() =~= es.subrange(0, k as int));
            assert(es.subrange(0, k + 1).last() == es[k as int]);
        }
        let ghost before = entry_views(out@);
        let e = &entries[k];
        if firsts[k].is_some() {
            // placed below, right after its target
            assert(autosquash_piece(es, es[k as int]) =~= Seq::<TodoEntryView>::empty());
            assert(entry_views(out@) =~= before + Seq::<TodoEntryView>::empty());
        } else {
            out.push(e.copy());
            assert(entry_views(out@) =~= before + seq![e@]);
            if targets[k].is_none() {
                // Attach every marker whose first matching base carries this hash.
                let ghost base_len = out@.len();
                let mut q: usize = 0;
                assert(es.subrange(0, 0) =~= Seq::<TodoEntryView>::empty());
                assert(entry_views(out@) =~= before + seq![e@] + attached(
                    es,
                    es.subrange(0, 0),
                    e@,
                ));
                while q < n
                    invariant
                        n == entries.len(),
                        es == entry_views(entries@),
                        targets@.len() == n,
                        firsts@.len() == n,
                        forall|p: int|
                            0 <= p < n ==> match #[trigger] targets@[p] {
                                Some((a, rest)) => target_of_spec(es[p].subject) == Some(
                                    (a, rest@),
                                ),
                                None => target_of_spec(es[p].subject) is None,
                            },
                        forall|p: int|
                            0 <= p < n ==> match #[trigger] firsts@[p] {
                                Some(b) => marker_target(es, es[p]) == Some(b as int),
                                None => marker_target(es, es[p]) is None,
                            },
                        k < n,
                        e@ == es[k as int],
                        q <= n,
                        entry_views(out@) == before + seq![e@] + attached(
                            es,
                            es.subrange(0, q as int),
                            e@,
                        ),
                    decreases n - q,
                {
                    proof {
                        assert(es.subrange(0, q + 1).drop_last() =~= es.subrange(0, q as int));
                        assert(es.subrange(0, q + 1).last() == es[q as int]);
                    }
                    let ghost prev = entry_views(out@);
                    let ghost att = attached(es, es.subrange(0, q as int), e@);
                    match firsts[q] {
                        Some(b) => {
                            proof {
                                lemma_first_base(es, marker_rest(es[q as int].subject));
                            }
                            if entries[b].hash == e.hash {
                                let action = match &targets[q] {
                                    Some((a, _)) => *a,
                                    None => TodoAction::Pick,
                                };
                                let mut moved = entries[q].copy();
                                moved.action = action;
                                let ghost mv = moved@;
                                out.push(moved);
                                assert(entry_views(out@) =~= prev.push(mv));
                                assert(mv == TodoEntryView {
                                    action: marker_action(es[q as int].subject),
                                    ..es[q as int]
                                });
                                assert(entry_views(out@) =~= before + seq![e@] + att.push(mv));
                            } else {
                                assert(entry_views(out@) =~= before + seq![e@] + att);
                            }
                        },
                        None => {
                            assert(entry_views(out@) =~= before + seq![e@] + att);
                        },
                    }
                    q += 1;
                }
                assert(es.subrange(0, n as int) =~= es);
            } else {
                assert(autosquash_piece(es, es[k as int]) =~= seq![e@]);
            }
        }
        k += 1;
    }
    assert(es.subrange(0, n as int) =~= es);
    out
}

// ---------------------------------------------------------------------------
// Laws
// ---------------------------------------------------------------------------

/// An entry whose todo line reads back unchanged: a non-empty hash without
/// spaces or newlines, a subject without newlines, and no trailing
/// whitespace on the line (which `parse_todo` trims).
pub open spec fn roundtrips(e: TodoEntryView) -> bool {
    &&& e.hash.len() > 0
    &&& forall|j: int| 0 <= j < e.hash.len() ==> #[trigger] e.hash[j] != ' ' && e.hash[j] != '\n'
    &&& forall|j: int| 0 <= j < e.subject.len() ==> #[trigger] e.subject[j] != '\n'
    &&& if e.subject.len() == 0 {
        !is_whitespace(e.hash.last())
    } else {
        !is_whitespace(e.subject.last())
    }
}

proof fn lemma_action_word(a: TodoAction)
    ensures
        action_from_word(action_word(a)) == Some(a),
        action_word(a).len() > 0,
        !is_whitespace(action_word(a)[0]),
        action_word(a)[0] != '#',
        forall|j: int| 0 <= j < action_word(a).len() ==> #[trigger] action_word(a)[j] != ' ' && action_word(a)[j] != '\n',
{
    reveal_strlit("pick");
    reveal_strlit("p");
    reveal_strlit("reword");
    reveal_strlit("r");
    reveal_strlit("edit");
    reveal_strlit("e");
    reveal_strlit("squash");
    reveal_strlit("s");
    reveal_strlit("fixup");
    reveal_strlit("f");
    reveal_strlit("drop");
    reveal_strlit("d");
    let w = action_word(a);
    if a != TodoAction::Pick {
        assert(w != "pick"@) by {
            assert(w.len() != "pick"@.len() || w[0] != 'p' || w[1] != 'i');
        }
        assert(w != "p"@) by {
            assert(w.len() != "p"@.len());
        }
    }
    if a != TodoAction::Pick && a != TodoAction::Reword {
        assert(w != "reword"@) by {
            assert(w.len() != "reword"@.len() || w[0] != 'r');
        }
        assert(w != "r"@) by {
            assert(w.len() != "r"@.len());
        }
    }
    if a != TodoAction::Pick && a != TodoAction::Reword && a != TodoAction::Edit {
        assert(w != "edit"@) by {
            assert(w.len() != "edit"@.len() || w[0] != 'e');
        }
        assert(w != "e"@) by {
            assert(w.len() != "e"@.len());
        }
    }
    if a == TodoAction::Fixup || a == TodoAction::Drop {
        assert(w != "squash"@) by {
            assert(w.len() != "squash"@.len() || w[0] != 's');
        }
        assert(w != "s"@) by {
            assert(w.len() != "s"@.len());
        }
    }
    if a == TodoAction::Drop {
        assert(w != "fixup"@) by {
            assert(w.len() != "fixup"@.len() || w[0] != 'f');
        }
        assert(w != "f"@) by {
            assert(w.len() != "f"@.len());
        }
    }
}

/// The todo words read back: each action's word and its first letter (git's
/// abbreviation) name the action, and no other word names any action.
pub proof fn law_todo_word_round_trip(a: TodoAction, w: Seq<char>)
    ensures
        action_from_word(action_word(a)) == Some(a),
        action_from_word(action_word(a).take(1)) == Some(a),
        action_from_word(w) == Some(a) ==> (w == action_word(a) || w == action_word(a).take(1)),
{
    lemma_action_word(a);
    reveal_strlit("pick");
    reveal_strlit("p");
    reveal_strlit("reword");
    reveal_strlit("r");
    reveal_strlit("edit");
    reveal_strlit("e");
    reveal_strlit("squash");
    reveal_strlit("s");
    reveal_strlit("fixup");
    reveal_strlit("f");
    reveal_strlit("drop");
    reveal_strlit("d");
    let w1 = action_word(a).take(1);
    match a {
        TodoAction::Pick => { assert(w1 =~= "p"@); },
        TodoAction::Reword => { assert(w1 =~= "r"@); },
        TodoAction::Edit => { assert(w1 =~= "e"@); },
        TodoAction::Squash => { assert(w1 =~= "s"@); },
        TodoAction::Fixup => { assert(w1 =~= "f"@); },
        TodoAction::Drop => { assert(w1 =~= "d"@); },
    }
    assert("p"@ != "r"@ && "p"@ != "e"@ && "p"@ != "s"@ && "p"@ != "f"@ && "p"@ != "d"@) by {
        assert("p"@[0] != "r"@[0] && "p"@[0] != "e"@[0] && "p"@[0] != "s"@[0] && "p"@[0] != "f"@[0] && "p"@[0] != "d"@[0]);
    }
    assert("r"@ != "e"@ && "r"@ != "s"@ && "r"@ != "f"@ && "r"@ != "d"@) by {
        assert("r"@[0] != "e"@[0] && "r"@[0] != "s"@[0] && "r"@[0] != "f"@[0] && "r"@[0] != "d"@[0]);
    }
    assert("e"@ != "s"@ && "e"@ != "f"@ && "e"@ != "d"@) by {
        assert("e"@[0] != "s"@[0] && "e"@[0] != "f"@[0] && "e"@[0] != "d"@[0]);
    }
    assert("s"@ != "f"@ && "s"@ != "d"@) by {
        assert("s"@[0] != "f"@[0] && "s"@[0] != "d"@[0]);
    }
    assert("f"@ != "d"@) by {
        assert("f"@[0] != "d"@[0]);
    }
}

proof fn lemma_char_at_prefix(s: Seq<char>, j: int)
    requires
        0 <= j <= s.len(),
    ensures
        starts_with(s.subrange(j, s.len() as int), seq![' ']) <==> (j < s.len() && s[j] == ' '),
{
    let t = s.subrange(j, s.len() as int);
    if j < s.len() {
        assert(t.subrange(0, 1) =~= seq![s[j]]);
        if s[j] == ' ' {
            assert(t.subrange(0, 1) =~= seq![' ']);
        }
        if starts_with(t, seq![' ']) {
            assert(t.subrange(0, 1)[0] == ' ');
        }
    }
}

/// The first space of `w + ' ' + r` is right after `w` when `w` has none.
proof fn lemma_split_at_first_space(w: Seq<char>, r: Seq<char>)
    requires
        forall|j: int| 0 <= j < w.len() ==> #[trigger] w[j] != ' ',
    ensures
        split_once(w + seq![' '] + r, seq![' ']) == Some((w, r)),
{
    let s = w + seq![' '] + r;
    assert forall|j: int| 0 <= j < w.len() && j <= s.len() implies !starts_with(
        #[trigger] s.subrange(j, s.len() as int),
        seq![' '],
    ) by {
        lemma_char_at_prefix(s, j);
        assert(s[j] == w[j]);
    }
    lemma_char_at_prefix(s, w.len() as int);
    crate::text::lemma_find_at(s, seq![' '], w.len() as int);
    assert(s.subrange(0, w.len() as int) =~= w);
    assert(s.subrange(w.len() as int + 1, s.len() as int) =~= r);
}

proof fn lemma_no_space(w: Seq<char>)
    requires
        forall|j: int| 0 <= j < w.len() ==> #[trigger] w[j] != ' ',
    ensures
        split_once(w, seq![' ']) is None,
{
    assert forall|j: int| 0 <= j < w.len() + 1 && j <= w.len() implies !starts_with(
        #[trigger] w.subrange(j, w.len() as int),
        seq![' '],
    ) by {
        lemma_char_at_prefix(w, j);
    }
    crate::text::lemma_find_at(w, seq![' '], w.len() as int + 1);
}

/// One well-formed entry's line parses back to the entry.
proof fn lemma_todo_line_parses(es: Seq<TodoEntryView>, e: TodoEntryView)
    requires
        roundtrips(e),
    ensures
        todo_step(Ok::<Seq<TodoEntryView>, Seq<char>>(es), todo_line(e)) == Ok::<
            Seq<TodoEntryView>,
            Seq<char>,
        >(es.push(e)),
{
    lemma_action_word(e.action);
    let w = action_word(e.action);
    let l = todo_line(e);
    assert(l[0] == w[0]);
    assert(!is_whitespace(l.last()));
    crate::text::lemma_trim_end_at(l, l.len() as int);
    assert(l.subrange(0, l.len() as int) =~= l);
    crate::text::lemma_trim_start_at(l, 0);
    assert(trim(l) == l);
    assert(!starts_with(l, seq!['#'])) by {
        if starts_with(l, seq!['#']) {
            assert(l.subrange(0, 1)[0] == l[0]);
        }
    }
    if e.subject.len() == 0 {
        lemma_split_at_first_space(w, e.hash);
        lemma_no_space(e.hash);
        assert(todo_parts(l) == (w, Some(e.hash), None::<Seq<char>>));
        assert(e.subject =~= Seq::<char>::empty());
        assert(TodoEntryView { action: e.action, hash: e.hash, subject: Seq::empty() } == e);
    } else {
        assert(l =~= w + seq![' '] + (e.hash + seq![' '] + e.subject));
        lemma_split_at_first_space(w, e.hash + seq![' '] + e.subject);
        lemma_split_at_first_space(e.hash, e.subject);
        assert(todo_parts(l) == (w, Some(e.hash), Some(e.subject)));
    }
}

proof fn lemma_serialize_split(es: Seq<TodoEntryView>)
    requires
        forall|k: int| 0 <= k < es.len() ==> roundtrips(#[trigger] es[k]),
    ensures
        split_char(serialize_todo_spec(es), '\n') == es.map_values(|e: TodoEntryView| todo_line(e)).push(
            Seq::<char>::empty(),
        ),
    decreases es.len(),
{
    if es.len() == 0 {
        assert(es.map_values(|e: TodoEntryView| todo_line(e)).push(Seq::<char>::empty()) =~= seq![
            Seq::<char>::empty(),
        ]);
    } else {
        let pre = es.drop_last();
        let e = es.last();
        assert forall|k: int| 0 <= k < pre.len() implies roundtrips(#[trigger] pre[k]) by {
            assert(pre[k] == es[k]);
        }
        lemma_serialize_split(pre);
        let l = todo_line(e);
        assert(roundtrips(es[es.len() - 1]));
        lemma_action_word(e.action);
        assert forall|i: int| 0 <= i < l.len() implies l[i] != '\n' by {
            if i < action_word(e.action).len() {
            } else if i == action_word(e.action).len() {
            } else if i < action_word(e.action).len() + 1 + e.hash.len() {
                assert(l[i] == e.hash[i - action_word(e.action).len() - 1]);
            } else if i == action_word(e.action).len() + 1 + e.hash.len() {
            } else {
                assert(l[i] == e.subject[i - action_word(e.action).len() - 2 - e.hash.len()]);
            }
        }
        crate::text::lemma_split_char_line(serialize_todo_spec(pre), l, '\n');
        assert(serialize_todo_spec(es) =~= serialize_todo_spec(pre) + l.push('\n'));
        let ps = pre.map_values(|e: TodoEntryView| todo_line(e));
        assert(Seq::<char>::empty() + l =~= l);
        assert(ps.push(Seq::<char>::empty()).update(ps.len() as int, Seq::<char>::empty() + l) =~= ps.push(l));
        assert(es.map_values(|e: TodoEntryView| todo_line(e)) =~= ps.push(l));
    }
}

proof fn lemma_fold_lines(es: Seq<TodoEntryView>)
    requires
        forall|k: int| 0 <= k < es.len() ==> roundtrips(#[trigger] es[k]),
    ensures
        todo_fold(es.map_values(|e: TodoEntryView| todo_line(e))) == Ok::<
            Seq<TodoEntryView>,
            Seq<char>,
        >(es),
    decreases es.len(),
{
    if es.len() == 0 {
        assert(es.map_values(|e: TodoEntryView| todo_line(e)) =~= Seq::<Seq<char>>::empty());
        assert(es =~= Seq::<TodoEntryView>::empty());
    } else {
        let pre = es.drop_last();
        assert forall|k: int| 0 <= k < pre.len() implies roundtrips(#[trigger] pre[k]) by {
            assert(pre[k] == es[k]);
        }
        lemma_fold_lines(pre);
        let ls = es.map_values(|e: TodoEntryView| todo_line(e));
        assert(ls.drop_last() =~= pre.map_values(|e: TodoEntryView| todo_line(e)));
        assert(roundtrips(es[es.len() - 1]));
        lemma_todo_line_parses(pre, es.last());
        assert(pre.push(es.last()) =~= es);
    }
}

/// Serializing a plan and parsing it back gives the same plan, for every
/// entry whose todo line reads back unchanged.
pub proof fn law_serialize_then_parse(es: Seq<TodoEntryView>)
    requires
        forall|k: int| 0 <= k < es.len() ==> roundtrips(#[trigger] es[k]),
    ensures
        parse_todo_spec(serialize_todo_spec(es)) == Ok::<Seq<TodoEntryView>, Seq<char>>(es),
{
    lemma_serialize_split(es);
    let ls = es.map_values(|e: TodoEntryView| todo_line(e));
    let parts = split_char(serialize_todo_spec(es), '\n');
    assert(parts.drop_last() =~= ls);
    assert forall|k: int| 0 <= k < ls.len() implies strip_cr(#[trigger] ls[k]) == ls[k] by {
        assert(roundtrips(es[k]));
        lemma_action_word(es[k].action);
        let l = todo_line(es[k]);
        assert(!is_whitespace(l.last()));
    }
    assert(ls.map_values(|l: Seq<char>| strip_cr(l)) =~= ls);
    assert(lines(serialize_todo_spec(es)) == ls);
    lemma_fold_lines(es);
}

/// When no marker has a target, `--autosquash` leaves the plan unchanged.
pub proof fn law_autosquash_without_targets(es: Seq<TodoEntryView>)
    requires
        forall|k: int| 0 <= k < es.len() ==> !movable(es, #[trigger] es[k]),
    ensures
        autosquash_spec(es) == es,
{
    assert forall|ms: Seq<TodoEntryView>, e: TodoEntryView| (forall|k: int| 0 <= k < ms.len() ==> #[trigger] marker_target(es, ms[k]) is None) implies attached(es, ms, e) == Seq::<TodoEntryView>::empty() by {
        lemma_attached_empty(es, ms, e);
    }
    lemma_autosquash_prefix(es, es);
    assert(es.subrange(0, es.len() as int) =~= es);
}

/// The entries autosquash leaves in place: all but the markers that have a
/// target.
pub open spec fn stays(es: Seq<TodoEntryView>) -> spec_fn(TodoEntryView) -> bool {
    |x: TodoEntryView| !movable(es, x)
}

proof fn lemma_attached_all_move(es: Seq<TodoEntryView>, ms: Seq<TodoEntryView>, e: TodoEntryView)
    ensures
        attached(es, ms, e).filter(stays(es)) == Seq::<TodoEntryView>::empty(),
    decreases ms.len(),
{
    reveal(Seq::filter);
    if ms.len() > 0 {
        lemma_attached_all_move(es, ms.drop_last(), e);
        let a = attached(es, ms, e);
        let prev = attached(es, ms.drop_last(), e);
        if a.len() > prev.len() {
            assert(a.drop_last() =~= prev);
            assert(movable(es, a.last()));
        }
    } else {
        assert(attached(es, ms, e) =~= Seq::<TodoEntryView>::empty());
    }
}

proof fn lemma_fold_stays(es: Seq<TodoEntryView>, ps: Seq<TodoEntryView>)
    ensures
        autosquash_fold(es, ps).filter(stays(es)) == ps.filter(stays(es)),
    decreases ps.len(),
{
    reveal(Seq::filter);
    let p = stays(es);
    if ps.len() > 0 {
        let e = ps.last();
        lemma_fold_stays(es, ps.drop_last());
        let front = autosquash_fold(es, ps.drop_last());
        let piece = autosquash_piece(es, e);
        Seq::filter_distributes_over_add(front, piece, p);
        if movable(es, e) {
            assert(piece =~= Seq::<TodoEntryView>::empty());
        } else {
            let one = seq![e];
            assert(one.drop_last() =~= Seq::<TodoEntryView>::empty());
            assert(one.filter(p) =~= seq![e]);
            if is_base(e) {
                lemma_attached_all_move(es, es, e);
                Seq::filter_distributes_over_add(one, attached(es, es, e), p);
                assert(piece.filter(p) =~= seq![e]);
            }
            assert(ps.drop_last().filter(p).push(e) =~= ps.drop_last().filter(p) + seq![e]);
        }
    } else {
        assert(autosquash_fold(es, ps) =~= Seq::<TodoEntryView>::empty());
    }
}

/// Autosquash moves only the markers that have a target: with those taken
/// out, the plan keeps every other entry, unchanged and in its order.
/// (Where each moved marker goes is `autosquash_spec`: right after its
/// target, in the order the markers came, with the marker's action.)
pub proof fn law_autosquash_keeps_the_rest(es: Seq<TodoEntryView>)
    ensures
        autosquash_spec(es).filter(stays(es)) == es.filter(stays(es)),
{
    lemma_fold_stays(es, es);
}

proof fn lemma_attached_empty(es: Seq<TodoEntryView>, ms: Seq<TodoEntryView>, e: TodoEntryView)
    requires
        forall|k: int| 0 <= k < ms.len() ==> #[trigger] marker_target(es, ms[k]) is None,
    ensures
        attached(es, ms, e) == Seq::<TodoEntryView>::empty(),
    decreases ms.len(),
{
    if ms.len() > 0 {
        assert forall|k: int| 0 <= k < ms.len() - 1 implies #[trigger] marker_target(es, ms.drop_last()[k]) is None by {
            assert(ms.drop_last()[k] == ms[k]);
        }
        assert(marker_target(es, ms[ms.len() - 1]) is None);
        lemma_attached_empty(es, ms.drop_last(), e);
    }
}

proof fn lemma_autosquash_prefix(es: Seq<TodoEntryView>, ps: Seq<TodoEntryView>)
    requires
        forall|k: int| 0 <= k < es.len() ==> !movable(es, #[trigger] es[k]),
        forall|k: int| 0 <= k < ps.len() ==> !movable(es, #[trigger] ps[k]),
    ensures
        autosquash_fold(es, ps) == ps,
    decreases ps.len(),
{
    if ps.len() > 0 {
        assert forall|k: int| 0 <= k < ps.len() - 1 implies !movable(es, #[trigger] ps.drop_last()[k]) by {
            assert(ps.drop_last()[k] == ps[k]);
        }
        lemma_autosquash_prefix(es, ps.drop_last());
        let e = ps.last();
        assert(!movable(es, ps[ps.len() - 1]));
        assert(forall|k: int| 0 <= k < es.len() ==> #[trigger] marker_target(es, es[k]) is None) by {
            assert forall|k: int| 0 <= k < es.len() implies #[trigger] marker_target(es, es[k]) is None by {
                assert(!movable(es, es[k]));
            }
        }
        lemma_attached_empty(es, es, e);
        assert(seq![e] + Seq::<TodoEntryView>::empty() =~= seq![e]);
        assert(ps.drop_last() + seq![e] =~= ps);
    }
}


// ---------------------------------------------------------------------------
// Autosquash keeps every entry
// ---------------------------------------------------------------------------

/// `f(0) + ... + f(n - 1)`.
pub open spec fn sum_to(f: spec_fn(int) -> nat, n: int) -> nat
    decreases n,
{
    if n <= 0 {
        0
    } else {
        sum_to(f, n - 1) + f(n - 1)
    }
}

proof fn lemma_sum_ext(f: spec_fn(int) -> nat, g: spec_fn(int) -> nat, n: int)
    requires
        forall|i: int| 0 <= i < n ==> #[trigger] f(i) == g(i),
    ensures
        sum_to(f, n) == sum_to(g, n),
    decreases n,
{
    if n > 0 {
        lemma_sum_ext(f, g, n - 1);
    }
}

proof fn lemma_sum_add(f: spec_fn(int) -> nat, g: spec_fn(int) -> nat, h: spec_fn(int) -> nat, n: int)
    requires
        forall|i: int| 0 <= i < n ==> #[trigger] h(i) == f(i) + g(i),
    ensures
        sum_to(h, n) == sum_to(f, n) + sum_to(g, n),
    decreases n,
{
    if n > 0 {
        lemma_sum_add(f, g, h, n - 1);
    }
}

/// Summing a table by rows or by columns gives the same total.
proof fn lemma_sum_swap(f: spec_fn(int, int) -> nat, a: int, b: int)
    requires
        0 <= a,
        0 <= b,
    ensures
        sum_to(|i: int| sum_to(|j: int| f(i, j), b), a) == sum_to(|j: int| sum_to(|i: int| f(i, j), a), b),
    decreases a,
{
    if a > 0 {
        lemma_sum_swap(f, a - 1, b);
        let cols_prev = |j: int| sum_to(|i: int| f(i, j), a - 1);
        let last_row = |j: int| f(a - 1, j);
        let cols = |j: int| sum_to(|i: int| f(i, j), a);
        assert forall|j: int| 0 <= j < b implies #[trigger] cols(j) == cols_prev(j) + last_row(j) by {}
        lemma_sum_add(cols_prev, last_row, cols, b);
        let rows = |i: int| sum_to(|j: int| f(i, j), b);
        assert(sum_to(rows, a) == sum_to(rows, a - 1) + rows(a - 1));
        assert(rows(a - 1) == sum_to(last_row, b));
        assert(sum_to(rows, a - 1) == sum_to(cols_prev, b));
        assert(sum_to(rows, a) == sum_to(cols, b));
    } else {
        let zero_cols = |j: int| sum_to(|i: int| f(i, j), a);
        assert forall|j: int| 0 <= j < b implies #[trigger] zero_cols(j) == (|j: int| 0nat)(j) by {}
        lemma_sum_ext(zero_cols, |j: int| 0nat, b);
        lemma_sum_zero(b);
    }
}

/// Whether marker `m` moves behind the entry with the hash of `e`.
pub open spec fn moves_behind(es: Seq<TodoEntryView>, m: TodoEntryView, e: TodoEntryView) -> nat {
    match marker_target(es, m) {
        Some(b) => if es[b].hash == e.hash {
            1
        } else {
            0
        },
        None => 0,
    }
}

proof fn lemma_attached_len(es: Seq<TodoEntryView>, ms: Seq<TodoEntryView>, e: TodoEntryView)
    ensures
        attached(es, ms, e).len() == sum_to(|j: int| moves_behind(es, ms[j], e), ms.len() as int),
    decreases ms.len(),
{
    if ms.len() > 0 {
        let init = ms.drop_last();
        lemma_attached_len(es, init, e);
        lemma_sum_ext(
            |j: int| moves_behind(es, init[j], e),
            |j: int| moves_behind(es, ms[j], e),
            init.len() as int,
        );
    }
}

/// How many entries a piece of the plan holds.
pub open spec fn piece_len(es: Seq<TodoEntryView>, e: TodoEntryView) -> nat {
    autosquash_piece(es, e).len()
}

proof fn lemma_fold_len(es: Seq<TodoEntryView>, ps: Seq<TodoEntryView>)
    ensures
        autosquash_fold(es, ps).len() == sum_to(|i: int| piece_len(es, ps[i]), ps.len() as int),
    decreases ps.len(),
{
    if ps.len() > 0 {
        let init = ps.drop_last();
        lemma_fold_len(es, init);
        lemma_sum_ext(|i: int| piece_len(es, init[i]), |i: int| piece_len(es, ps[i]), init.len() as int);
    }
}

/// A movable marker moves behind exactly one entry of a plan whose hashes
/// are distinct: its target; any other marker behind none.
proof fn lemma_column(es: Seq<TodoEntryView>, j: int, a: int)
    requires
        0 <= j < es.len(),
        0 <= a <= es.len(),
        forall|x: int, y: int| 0 <= x < es.len() && 0 <= y < es.len() && x != y ==> es[x].hash != es[y].hash,
    ensures
        sum_to(|i: int| if is_base(es[i]) { moves_behind(es, es[j], es[i]) } else { 0nat }, a) == (
            match marker_target(es, es[j]) {
                Some(b) => if b < a {
                    1nat
                } else {
                    0nat
                },
                None => 0nat,
            }),
    decreases a,
{
    let g = |i: int| if is_base(es[i]) { moves_behind(es, es[j], es[i]) } else { 0nat };
    match target_of_spec(es[j].subject) {
        Some((_, rest)) => lemma_first_base(es, rest),
        None => {},
    }
    if a > 0 {
        lemma_column(es, j, a - 1);
        assert(sum_to(g, a) == sum_to(g, a - 1) + g(a - 1));
        match marker_target(es, es[j]) {
            Some(b) => {
                assert(0 <= b < es.len() && is_base(es[b]));
                if b != a - 1 {
                    assert(es[b].hash != es[a - 1].hash);
                    assert(g(a - 1) == 0);
                } else {
                    assert(g(a - 1) == 1);
                }
            },
            None => {
                assert(g(a - 1) == 0);
            },
        }
    }
}

/// Autosquash only reorders: for a plan whose hashes are distinct, the
/// result has as many entries as the plan.
pub proof fn law_autosquash_keeps_length(es: Seq<TodoEntryView>)
    requires
        forall|x: int, y: int| 0 <= x < es.len() && 0 <= y < es.len() && x != y ==> es[x].hash != es[y].hash,
    ensures
        autosquash_spec(es).len() == es.len(),
{
    let n = es.len() as int;
    lemma_fold_len(es, es);
    let stay = |i: int| if movable(es, es[i]) { 0nat } else { 1nat };
    let mov = |i: int| if movable(es, es[i]) { 1nat } else { 0nat };
    let f = |i: int, j: int| if is_base(es[i]) { moves_behind(es, es[j], es[i]) } else { 0nat };
    let extra = |i: int| sum_to(|j: int| f(i, j), n);
    assert forall|i: int| 0 <= i < n implies #[trigger] piece_len(es, es[i]) == stay(i) + extra(i) by {
        let e = es[i];
        lemma_attached_len(es, es, e);
        if is_base(e) {
            let g1 = |j: int| moves_behind(es, es[j], e);
            let g2 = |j: int| f(i, j);
            assert forall|j: int| 0 <= j < n implies #[trigger] g1(j) == g2(j) by {}
            lemma_sum_ext(g1, g2, n);
            assert(!movable(es, e));
            assert(autosquash_piece(es, e).len() == 1 + attached(es, es, e).len());
        } else {
            assert forall|j: int| 0 <= j < n implies #[trigger] f(i, j) == 0nat by {}
            lemma_sum_ext(|j: int| f(i, j), |j: int| 0nat, n);
            lemma_sum_zero(n);
        }
    }
    lemma_sum_add(stay, extra, |i: int| piece_len(es, es[i]), n);
    lemma_sum_swap(f, n, n);
    assert forall|j: int| 0 <= j < n implies #[trigger] mov(j) == sum_to(|i: int| f(i, j), n) by {
        lemma_column(es, j, n);
        let g = |i: int| if is_base(es[i]) { moves_behind(es, es[j], es[i]) } else { 0nat };
        let fj = |i: int| f(i, j);
        assert forall|i: int| 0 <= i < n implies #[trigger] fj(i) == g(i) by {}
        lemma_sum_ext(fj, g, n);
        match target_of_spec(es[j].subject) {
            Some((_, rest)) => lemma_first_base(es, rest),
            None => {},
        }
    }
    lemma_sum_ext(|j: int| sum_to(|i: int| f(i, j), n), mov, n);
    assert forall|i: int| 0 <= i < n implies #[trigger] stay(i) + mov(i) == 1nat by {}
    lemma_sum_add(stay, mov, |i: int| 1nat, n);
    lemma_sum_ones(n);
}

proof fn lemma_sum_zero(n: int)
    ensures
        sum_to(|i: int| 0nat, n) == 0,
    decreases n,
{
    if n > 0 {
        lemma_sum_zero(n - 1);
    }
}

proof fn lemma_sum_ones(n: int)
    requires
        0 <= n,
    ensures
        sum_to(|i: int| 1nat, n) == n,
    decreases n,
{
    if n > 0 {
        lemma_sum_ones(n - 1);
    }
}


// ---------------------------------------------------------------------------
// Laws in the plan's own terms
// ---------------------------------------------------------------------------

proof fn lemma_trim_end_len(s: Seq<char>)
    ensures
        trim_end(s).len() <= s.len(),
    decreases s.len(),
{
    if s.len() > 0 && is_whitespace(s.last()) {
        lemma_trim_end_len(s.drop_last());
    }
}

/// Writing a plan out and reading it back gives the same plan, whenever
/// every hash is non-empty and free of whitespace and every subject is one
/// line without trailing whitespace.
pub proof fn law_todo_round_trip(es: Seq<TodoEntryView>)
    requires
        forall|k: int|
            0 <= k < es.len() ==> {
                let e = #[trigger] es[k];
                &&& e.hash.len() > 0
                &&& forall|j: int| 0 <= j < e.hash.len() ==> !is_whitespace(#[trigger] e.hash[j])
                &&& forall|j: int| 0 <= j < e.subject.len() ==> #[trigger] e.subject[j] != '\n'
                &&& trim_end(e.subject) == e.subject
            },
    ensures
        parse_todo_spec(serialize_todo_spec(es)) == Ok::<Seq<TodoEntryView>, Seq<char>>(es),
{
    assert forall|k: int| 0 <= k < es.len() implies roundtrips(#[trigger] es[k]) by {
        let e = es[k];
        assert(forall|j: int| 0 <= j < e.hash.len() ==> !is_whitespace(#[trigger] e.hash[j]));
        assert forall|j: int| 0 <= j < e.hash.len() implies #[trigger] e.hash[j] != ' ' && e.hash[j] != '\n' by {
            assert(!is_whitespace(e.hash[j]));
        }
        if e.subject.len() == 0 {
            assert(!is_whitespace(e.hash[e.hash.len() - 1]));
        } else if is_whitespace(e.subject.last()) {
            lemma_trim_end_len(e.subject.drop_last());
        }
    }
    law_serialize_then_parse(es);
}

/// How many lines carry an instruction.
pub open spec fn count_relevant(ls: Seq<Seq<char>>) -> nat
    decreases ls.len(),
{
    if ls.len() == 0 {
        0
    } else {
        count_relevant(ls.drop_last()) + if todo_relevant(ls.last()) {
            1nat
        } else {
            0nat
        }
    }
}

proof fn lemma_entries_count(ls: Seq<Seq<char>>)
    requires
        forall|i: int| 0 <= i < ls.len() ==> !todo_bad(#[trigger] ls[i]),
    ensures
        todo_entries(ls).len() == count_relevant(ls),
    decreases ls.len(),
{
    if ls.len() > 0 {
        let init = ls.drop_last();
        assert forall|i: int| 0 <= i < init.len() implies !todo_bad(#[trigger] init[i]) by {
            assert(init[i] == ls[i]);
        }
        lemma_entries_count(init);
        assert(!todo_bad(ls[ls.len() - 1]));
    }
}

/// Parsing a todo text: it fails exactly when some instruction line is
/// refused, naming the first; otherwise it gives one entry per instruction
/// line (blank and `#` lines skipped), in order.
pub proof fn law_parse_todo_text(text: Seq<char>, k: int)
    ensures
        ({
            let ls = lines(text);
            &&& (forall|i: int| 0 <= i < ls.len() ==> !todo_bad(#[trigger] ls[i])) ==> parse_todo_spec(text)
                == Ok::<Seq<TodoEntryView>, Seq<char>>(todo_entries(ls)) && todo_entries(ls).len() == count_relevant(ls)
            &&& 0 <= k < ls.len() && todo_bad(ls[k]) && (forall|i: int| 0 <= i < k ==> !todo_bad(#[trigger] ls[i]))
                ==> parse_todo_spec(text) == Err::<Seq<TodoEntryView>, Seq<char>>(todo_line_error(ls[k]))
            &&& parse_todo_spec(text) is Err ==> exists|i: int| 0 <= i < ls.len() && todo_bad(#[trigger] ls[i])
        }),
{
    let ls = lines(text);
    law_parse_todo(ls, k);
    if forall|i: int| 0 <= i < ls.len() ==> !todo_bad(#[trigger] ls[i]) {
        lemma_entries_count(ls);
    }
}

proof fn lemma_fold_append(es: Seq<TodoEntryView>, ps: Seq<TodoEntryView>, qs: Seq<TodoEntryView>)
    ensures
        autosquash_fold(es, ps + qs) == autosquash_fold(es, ps) + autosquash_fold(es, qs),
    decreases qs.len(),
{
    if qs.len() == 0 {
        assert(ps + qs =~= ps);
        assert(autosquash_fold(es, ps) + autosquash_fold(es, qs) =~= autosquash_fold(es, ps));
    } else {
        lemma_fold_append(es, ps, qs.drop_last());
        assert((ps + qs).drop_last() =~= ps + qs.drop_last());
        assert((ps + qs).last() == qs.last());
    }
}

/// Where each entry's piece of the plan goes: after the pieces of the
/// entries before it. A marker with a target gives an empty piece; any
/// other entry stays, a commit followed right by the markers aimed at it
/// (in their order, with their fixup or squash action).
pub proof fn law_autosquash_pieces(es: Seq<TodoEntryView>, i: int)
    requires
        0 <= i < es.len(),
    ensures
        ({
            let r = autosquash_spec(es);
            let p = autosquash_fold(es, es.take(i)).len() as int;
            let piece = autosquash_piece(es, es[i]);
            &&& p + piece.len() <= r.len()
            &&& r.subrange(p, p + piece.len()) == piece
        }),
{
    let front = es.take(i);
    let rest = es.skip(i + 1);
    assert(es =~= front + seq![es[i]] + rest);
    lemma_fold_append(es, front + seq![es[i]], rest);
    lemma_fold_append(es, front, seq![es[i]]);
    let one = seq![es[i]];
    assert(one.drop_last() =~= Seq::<TodoEntryView>::empty());
    assert(autosquash_fold(es, one.drop_last()) =~= Seq::<TodoEntryView>::empty());
    assert(one.last() == es[i]);
    assert(autosquash_fold(es, one) =~= Seq::<TodoEntryView>::empty() + autosquash_piece(es, es[i]));
    assert(autosquash_fold(es, one) =~= autosquash_piece(es, es[i]));
    let r = autosquash_spec(es);
    let a = autosquash_fold(es, front);
    let b = autosquash_piece(es, es[i]);
    assert(r == a + b + autosquash_fold(es, rest));
    assert(r.subrange(a.len() as int, (a.len() + b.len()) as int) =~= b);
}


// ---------------------------------------------------------------------------
// Autosquash twice
// ---------------------------------------------------------------------------

/// The ordinary commits (those without a marker subject).
pub open spec fn base_pred() -> spec_fn(TodoEntryView) -> bool {
    |x: TodoEntryView| is_base(x)
}

/// The first ordinary commit whose subject starts with `rest`, as an entry.
pub open spec fn first_base_entry(s: Seq<TodoEntryView>, rest: Seq<char>) -> Option<TodoEntryView> {
    match first_base(s, rest) {
        Some(i) => Some(s[i]),
        None => None,
    }
}

proof fn lemma_first_base_entry_filter(s: Seq<TodoEntryView>, rest: Seq<char>)
    ensures
        first_base_entry(s, rest) == first_base_entry(s.filter(base_pred()), rest),
    decreases s.len(),
{
    reveal(Seq::filter);
    if s.len() > 0 {
        let init = s.drop_last();
        lemma_first_base_entry_filter(init, rest);
        lemma_first_base(init, rest);
        lemma_first_base(s, rest);
        let f = s.filter(base_pred());
        let fi = init.filter(base_pred());
        lemma_first_base(f, rest);
        lemma_first_base(fi, rest);
        if is_base(s.last()) {
            assert(f == fi.push(s.last()));
            assert(f.drop_last() =~= fi);
            match first_base(fi, rest) {
                Some(b) => {
                    assert(f[b] == fi[b]);
                },
                None => {},
            }
            match first_base(init, rest) {
                Some(b) => {
                    assert(s[b] == init[b]);
                },
                None => {},
            }
        } else {
            assert(f == fi);
            assert(!base_matches(s.last(), rest));
            match first_base(init, rest) {
                Some(b) => {
                    assert(s[b] == init[b]);
                },
                None => {},
            }
        }
    }
}

proof fn lemma_filter_narrow(s: Seq<TodoEntryView>, p: spec_fn(TodoEntryView) -> bool, q: spec_fn(TodoEntryView) -> bool)
    requires
        forall|x: TodoEntryView| #[trigger] q(x) ==> p(x),
    ensures
        s.filter(p).filter(q) == s.filter(q),
    decreases s.len(),
{
    reveal(Seq::filter);
    if s.len() > 0 {
        lemma_filter_narrow(s.drop_last(), p, q);
        let sp = s.filter(p);
        if p(s.last()) {
            assert(sp.drop_last() =~= s.drop_last().filter(p));
            assert(sp.last() == s.last());
        }
    }
}

/// The ordinary commits keep their order through autosquash.
proof fn lemma_autosquash_bases(es: Seq<TodoEntryView>)
    ensures
        autosquash_spec(es).filter(base_pred()) == es.filter(base_pred()),
{
    let r = autosquash_spec(es);
    law_autosquash_keeps_the_rest(es);
    assert forall|x: TodoEntryView| #[trigger] base_pred()(x) implies stays(es)(x) by {
        assert(target_of_spec(x.subject) is None);
    }
    lemma_filter_narrow(r, stays(es), base_pred());
    lemma_filter_narrow(es, stays(es), base_pred());
}

/// After autosquash every marker aims at the entry with the same hash as
/// before.
proof fn lemma_target_kept(es: Seq<TodoEntryView>, m: TodoEntryView)
    ensures
        ({
            let r = autosquash_spec(es);
            &&& marker_target(r, m) is Some <==> marker_target(es, m) is Some
            &&& marker_target(es, m) matches Some(b) ==> r[marker_target(r, m)->0].hash == es[b].hash
        }),
{
    let r = autosquash_spec(es);
    match target_of_spec(m.subject) {
        Some((_, rest)) => {
            lemma_autosquash_bases(es);
            lemma_first_base_entry_filter(r, rest);
            lemma_first_base_entry_filter(es, rest);
        },
        None => {},
    }
}


proof fn lemma_attached_append(s: Seq<TodoEntryView>, a: Seq<TodoEntryView>, b: Seq<TodoEntryView>, e: TodoEntryView)
    ensures
        attached(s, a + b, e) == attached(s, a, e) + attached(s, b, e),
    decreases b.len(),
{
    if b.len() == 0 {
        assert(a + b =~= a);
        assert(attached(s, a, e) + attached(s, b, e) =~= attached(s, a, e));
    } else {
        lemma_attached_append(s, a, b.drop_last(), e);
        assert((a + b).drop_last() =~= a + b.drop_last());
        assert((a + b).last() == b.last());
        let x = attached(s, a, e);
        let y = attached(s, b.drop_last(), e);
        match marker_target(s, b.last()) {
            Some(t) => {
                if s[t].hash == e.hash {
                    let z = TodoEntryView { action: marker_action(b.last().subject), ..b.last() };
                    assert((x + y).push(z) =~= x + y.push(z));
                }
            },
            None => {},
        }
    }
}

/// The markers attached behind `e'`: each aims at the hash of `e'` and
/// already carries its marker's action.
proof fn lemma_attached_elems(es: Seq<TodoEntryView>, ms: Seq<TodoEntryView>, e2: TodoEntryView)
    ensures
        forall|i: int|
            0 <= i < attached(es, ms, e2).len() ==> {
                let x = #[trigger] attached(es, ms, e2)[i];
                &&& marker_target(es, x) matches Some(b) && es[b].hash == e2.hash
                &&& x.action == marker_action(x.subject)
            },
    decreases ms.len(),
{
    if ms.len() > 0 {
        lemma_attached_elems(es, ms.drop_last(), e2);
        let prev = attached(es, ms.drop_last(), e2);
        let a = attached(es, ms, e2);
        assert forall|i: int| 0 <= i < a.len() implies {
            let x = #[trigger] a[i];
            &&& marker_target(es, x) matches Some(b) && es[b].hash == e2.hash
            &&& x.action == marker_action(x.subject)
        } by {
            if i < prev.len() {
                assert(a[i] == prev[i]);
            }
        }
    }
}

/// Markers aimed at the hash of `e'`, already carrying their actions, are
/// attached behind `e` in the reordered plan exactly when `e` has that
/// hash, and then unchanged.
proof fn lemma_reattach(es: Seq<TodoEntryView>, ms: Seq<TodoEntryView>, e2: TodoEntryView, e: TodoEntryView)
    requires
        forall|i: int|
            0 <= i < ms.len() ==> {
                let x = #[trigger] ms[i];
                &&& marker_target(es, x) matches Some(b) && es[b].hash == e2.hash
                &&& x.action == marker_action(x.subject)
            },
    ensures
        attached(autosquash_spec(es), ms, e) == (if e2.hash == e.hash {
            ms
        } else {
            Seq::<TodoEntryView>::empty()
        }),
    decreases ms.len(),
{
    if ms.len() > 0 {
        let init = ms.drop_last();
        assert forall|i: int| 0 <= i < init.len() implies {
            let x = #[trigger] init[i];
            &&& marker_target(es, x) matches Some(b) && es[b].hash == e2.hash
            &&& x.action == marker_action(x.subject)
        } by {
            assert(init[i] == ms[i]);
        }
        lemma_reattach(es, init, e2, e);
        let m = ms.last();
        assert(ms[ms.len() - 1] == m);
        lemma_target_kept(es, m);
        if e2.hash == e.hash {
            assert(TodoEntryView { action: marker_action(m.subject), ..m } == m);
            assert(init.push(m) =~= ms);
        }
    } else {
        assert(ms =~= Seq::<TodoEntryView>::empty());
    }
}

/// In the reordered plan, the markers behind commit `es[j]` are those
/// autosquash put behind it.
proof fn lemma_attached_after(es: Seq<TodoEntryView>, k: int, j: int)
    requires
        0 <= k <= es.len(),
        0 <= j < es.len(),
        is_base(es[j]),
        forall|x: int, y: int| 0 <= x < es.len() && 0 <= y < es.len() && x != y ==> es[x].hash != es[y].hash,
    ensures
        attached(autosquash_spec(es), autosquash_fold(es, es.take(k)), es[j]) == (if j < k {
            attached(es, es, es[j])
        } else {
            Seq::<TodoEntryView>::empty()
        }),
    decreases k,
{
    let r = autosquash_spec(es);
    let e = es[j];
    if k == 0 {
        assert(es.take(0) =~= Seq::<TodoEntryView>::empty());
        assert(autosquash_fold(es, es.take(0)) =~= Seq::<TodoEntryView>::empty());
    } else {
        lemma_attached_after(es, k - 1, j);
        let front = es.take(k - 1);
        let x = es[k - 1];
        assert(es.take(k).drop_last() =~= front);
        assert(es.take(k).last() == x);
        let piece = autosquash_piece(es, x);
        lemma_attached_append(r, autosquash_fold(es, front), piece, e);
        if movable(es, x) {
            assert(piece =~= Seq::<TodoEntryView>::empty());
            assert(attached(r, piece, e) =~= Seq::<TodoEntryView>::empty());
        } else {
            lemma_target_kept(es, x);
            let one = seq![x];
            assert(one.drop_last() =~= Seq::<TodoEntryView>::empty());
            assert(one.last() == x);
            assert(attached(r, one.drop_last(), e) =~= Seq::<TodoEntryView>::empty());
            assert(marker_target(r, x) is None);
            assert(attached(r, one, e) =~= Seq::<TodoEntryView>::empty());
            if is_base(x) {
                let a = attached(es, es, x);
                lemma_attached_elems(es, es, x);
                lemma_reattach(es, a, x, e);
                lemma_attached_append(r, one, a, e);
                if k - 1 != j {
                    assert(es[k - 1].hash != es[j].hash);
                }
                assert(attached(r, piece, e) == (if x.hash == e.hash {
                    a
                } else {
                    Seq::<TodoEntryView>::empty()
                }));
            } else {
                assert(piece == one);
            }
        }
        let before = attached(r, autosquash_fold(es, front), e);
        assert(before + Seq::<TodoEntryView>::empty() =~= before);
        assert(Seq::<TodoEntryView>::empty() + attached(es, es, e) =~= attached(es, es, e));
    }
}

proof fn lemma_fold_all_move(r: Seq<TodoEntryView>, ms: Seq<TodoEntryView>)
    requires
        forall|i: int| 0 <= i < ms.len() ==> movable(r, #[trigger] ms[i]),
    ensures
        autosquash_fold(r, ms) == Seq::<TodoEntryView>::empty(),
    decreases ms.len(),
{
    if ms.len() > 0 {
        let init = ms.drop_last();
        assert forall|i: int| 0 <= i < init.len() implies movable(r, #[trigger] init[i]) by {
            assert(init[i] == ms[i]);
        }
        lemma_fold_all_move(r, init);
        assert(movable(r, ms[ms.len() - 1]));
        assert(autosquash_fold(r, ms) =~= Seq::<TodoEntryView>::empty());
    }
}

proof fn lemma_refold(es: Seq<TodoEntryView>, k: int)
    requires
        0 <= k <= es.len(),
        forall|x: int, y: int| 0 <= x < es.len() && 0 <= y < es.len() && x != y ==> es[x].hash != es[y].hash,
    ensures
        autosquash_fold(autosquash_spec(es), autosquash_fold(es, es.take(k))) == autosquash_fold(es, es.take(k)),
    decreases k,
{
    let r = autosquash_spec(es);
    if k == 0 {
        assert(es.take(0) =~= Seq::<TodoEntryView>::empty());
        assert(autosquash_fold(es, es.take(0)) =~= Seq::<TodoEntryView>::empty());
        assert(autosquash_fold(r, Seq::<TodoEntryView>::empty()) =~= Seq::<TodoEntryView>::empty());
    } else {
        lemma_refold(es, k - 1);
        let front = es.take(k - 1);
        let x = es[k - 1];
        assert(es.take(k).drop_last() =~= front);
        assert(es.take(k).last() == x);
        let piece = autosquash_piece(es, x);
        lemma_fold_append(r, autosquash_fold(es, front), piece);
        lemma_target_kept(es, x);
        if movable(es, x) {
            assert(piece =~= Seq::<TodoEntryView>::empty());
            assert(autosquash_fold(r, piece) =~= Seq::<TodoEntryView>::empty());
        } else {
            let one = seq![x];
            assert(one.drop_last() =~= Seq::<TodoEntryView>::empty());
            assert(autosquash_fold(r, one.drop_last()) =~= Seq::<TodoEntryView>::empty());
            assert(one.last() == x);
            assert(autosquash_fold(r, one) =~= Seq::<TodoEntryView>::empty() + autosquash_piece(r, x));
            if is_base(x) {
                let a = attached(es, es, x);
                lemma_fold_append(r, one, a);
                lemma_attached_elems(es, es, x);
                assert forall|i: int| 0 <= i < a.len() implies movable(r, #[trigger] a[i]) by {
                    lemma_target_kept(es, a[i]);
                }
                lemma_fold_all_move(r, a);
                assert(es.take(es.len() as int) =~= es);
                lemma_attached_after(es, es.len() as int, k - 1);
                assert(autosquash_piece(r, x) == seq![x] + a);
                assert(autosquash_fold(r, piece) =~= piece);
            } else {
                assert(autosquash_fold(r, piece) =~= piece);
            }
        }
    }
}

/// Autosquash is idempotent: on a plan whose hashes are distinct, running
/// it on its own result changes nothing.
pub proof fn law_autosquash_idempotent(es: Seq<TodoEntryView>)
    requires
        forall|x: int, y: int| 0 <= x < es.len() && 0 <= y < es.len() && x != y ==> es[x].hash != es[y].hash,
    ensures
        autosquash_spec(autosquash_spec(es)) == autosquash_spec(es),
{
    lemma_refold(es, es.len() as int);
    assert(es.take(es.len() as int) =~= es);
}

} // verus!
