//! Minibuffer input and picker: a single component with two modes.
//! - plain input (`candidates` empty): free text, e.g. a new branch name
//! - picker: text filters `candidates` (case-insensitive fuzzy matching via
//!   `fuzzy-matcher`, best match first), UP/DOWN (or C-p/C-n) move the
//!   selection, TAB completes, RET submits the selected candidate (or the
//!   raw text when nothing matches).

use fuzzy_matcher::skim::SkimMatcherV2;
use fuzzy_matcher::FuzzyMatcher;
use vstd::prelude::*;

use crate::keymap::{KeyCode, KeyPress};
use crate::text::{chars_of, decimal, push_decimal, push_str, string_of, subvec, trim, trim_exec};
use crate::theme::{Color, Theme};
use crate::ui::section::{Line, LineView, Span, Style};

verus! {

#[derive(Debug, Clone, PartialEq, Eq)]
pub enum InputResult {
    Consumed,
    Cancel,
    Submit(String),
}

/// The score and matched char positions that skim's fuzzy matcher, with
/// case ignored, gives `choice` for `pattern` (`None`: no match).
pub uninterp spec fn skim_match(choice: Seq<char>, pattern: Seq<char>) -> Option<(i64, Seq<usize>)>;

/// `SkimMatcherV2::default().ignore_case().fuzzy_indices(choice, pattern)`:
/// the contract claims only that the result is a function of the two
/// texts, named `skim_match`.
#[verifier::external_body]
fn fuzzy_indices(choice: &str, pattern: &str) -> (r: Option<(i64, Vec<usize>)>)
    ensures
        match r {
            Some(m) => skim_match(choice@, pattern@) == Some((m.0, m.1@)),
            None => skim_match(choice@, pattern@) is None,
        },
{
    SkimMatcherV2::default().ignore_case().fuzzy_indices(choice, pattern)
}

/// A candidate that matched: its position among the candidates, its score
/// and the matched char positions.
pub type Scored = (usize, i64, Seq<usize>);

/// The matching candidates in candidate order.
pub open spec fn scored(cands: Seq<Seq<char>>, pattern: Seq<char>) -> Seq<Scored>
    decreases cands.len(),
{
    if cands.len() == 0 {
        Seq::empty()
    } else {
        let rest = scored(cands.drop_last(), pattern);
        match skim_match(cands.last(), pattern) {
            Some(m) => rest.push(((cands.len() - 1) as usize, m.0, m.1)),
            None => rest,
        }
    }
}

/// `x` placed after the last entry that scores at least as high.
pub open spec fn insert_ranked(s: Seq<Scored>, x: Scored) -> Seq<Scored>
    decreases s.len(),
{
    if s.len() == 0 {
        seq![x]
    } else if s.last().1 >= x.1 {
        s.push(x)
    } else {
        insert_ranked(s.drop_last(), x).push(s.last())
    }
}

/// Best score first; equal scores keep their order (a stable sort).
pub open spec fn rank(s: Seq<Scored>) -> Seq<Scored>
    decreases s.len(),
{
    if s.len() == 0 {
        s
    } else {
        insert_ranked(rank(s.drop_last()), s.last())
    }
}

/// What the picker offers for `text`: every candidate, unmarked, while the
/// text is empty; else the matching ones, best first.
pub open spec fn matches_spec(cands: Seq<Seq<char>>, text: Seq<char>) -> Seq<Scored> {
    if text.len() == 0 {
        Seq::new(cands.len(), |i: int| (i as usize, 0i64, Seq::<usize>::empty()))
    } else {
        rank(scored(cands, text))
    }
}

pub open spec fn filtered_spec(cands: Seq<Seq<char>>, text: Seq<char>) -> Seq<Seq<char>> {
    matches_spec(cands, text).map_values(|m: Scored| cands[m.0 as int])
}

pub open spec fn string_views(v: Seq<String>) -> Seq<Seq<char>> {
    v.map_values(|s: String| s@)
}

/// The selection after moving it by `delta` among `len` entries.
pub open spec fn moved_selection(selected: usize, len: nat, delta: int) -> usize {
    if len == 0 {
        selected
    } else {
        let base = if selected < len { selected as int } else { len - 1 };
        let m = if base + delta < 0 {
            0
        } else if base + delta > usize::MAX {
            usize::MAX as int
        } else {
            base + delta
        };
        (if m < len { m } else { len - 1 }) as usize
    }
}

/// Pure editing/filtering state; what the submitted text means lives with
/// the caller.
#[derive(Debug, Clone)]
pub struct InputState {
    pub prompt: String,
    pub text: String,
    /// Cursor as a char index into `text`.
    pub cursor: usize,
    /// Non-empty makes this a picker.
    pub candidates: Vec<String>,
    /// Selection index into `filtered()`.
    pub selected: usize,
}

proof fn lemma_insert_ranked_at(s: Seq<Scored>, x: Scored, j: int)
    requires
        0 <= j <= s.len(),
        j == 0 || s[j - 1].1 >= x.1,
        forall|t: int| j <= t < s.len() ==> (#[trigger] s[t]).1 < x.1,
    ensures
        insert_ranked(s, x) == s.insert(j, x),
    decreases s.len(),
{
    if s.len() == 0 {
        assert(s.insert(j, x) =~= seq![x]);
    } else if s.last().1 >= x.1 {
        assert(j == s.len());
        assert(s.insert(j, x) =~= s.push(x));
    } else {
        lemma_insert_ranked_at(s.drop_last(), x, j);
        assert(s.insert(j, x) =~= s.drop_last().insert(j, x).push(s.last()));
    }
}

impl InputState {
    pub open spec fn wf(&self) -> bool {
        self.cursor <= self.text@.len()
    }

    /// A plain input with `prompt`.
    pub fn plain(prompt: &str) -> (r: InputState)
        ensures
            r.prompt@ == prompt@,
            r.text@.len() == 0,
            r.cursor == 0,
            r.candidates@.len() == 0,
            r.selected == 0,
            r.wf(),
    {
        InputState {
            prompt: String::from_str(prompt),
            text: String::new(),
            cursor: 0,
            candidates: Vec::new(),
            selected: 0,
        }
    }

    /// A picker over `candidates`.
    pub fn picker(prompt: &str, candidates: Vec<String>) -> (r: InputState)
        ensures
            r.prompt@ == prompt@,
            r.text@.len() == 0,
            r.cursor == 0,
            r.candidates@ == candidates@,
            r.selected == 0,
            r.wf(),
    {
        InputState {
            prompt: String::from_str(prompt),
            text: String::new(),
            cursor: 0,
            candidates,
            selected: 0,
        }
    }

    /// Prefill the text (e.g. a variable's current value), cursor at the end.
    pub fn with_text(self, text: &str) -> (r: InputState)
        ensures
            r.text@ == text@,
            r.cursor == text@.len(),
            r.prompt == self.prompt,
            r.candidates@ == self.candidates@,
            r.selected == self.selected,
            r.wf(),
    {
        let v = chars_of(text);
        let n = v.len();
        InputState { text: String::from_str(text), cursor: n, ..self }
    }

    pub fn is_picker(&self) -> (r: bool)
        ensures
            r == (self.candidates@.len() > 0),
    {
        self.candidates.len() > 0
    }

    /// The candidates offered for the current text, each with its score and
    /// the matched char positions (for highlighting).
    pub fn matches(&self) -> (r: Vec<(usize, i64, Vec<usize>)>)
        ensures
            r@.map_values(|m: (usize, i64, Vec<usize>)| (m.0, m.1, m.2@)) == matches_spec(
                string_views(self.candidates@),
                self.text@,
            ),
    {
        let ghost cands = string_views(self.candidates@);
        let n = self.candidates.len();
        let mut out: Vec<(usize, i64, Vec<usize>)> = Vec::new();
        if self.text.as_str().is_empty() {
            let mut i: usize = 0;
            while i < n
                invariant
                    n == self.candidates@.len(),
                    i <= n,
                    out@.map_values(|m: (usize, i64, Vec<usize>)| (m.0, m.1, m.2@)) == Seq::new(
                        i as nat,
                        |k: int| (k as usize, 0i64, Seq::<usize>::empty()),
                    ),
                decreases n - i,
            {
                let none: Vec<usize> = Vec::new();
                assert(none@ =~= Seq::<usize>::empty());
                let ghost prev = out@.map_values(|m: (usize, i64, Vec<usize>)| (m.0, m.1, m.2@));
                let ghost old_out = out@;
                assert(prev.len() == i);
                assert(old_out.len() == i);
                let entry: (usize, i64, Vec<usize>) = (i, 0, none);
                let ghost ev = (entry.0, entry.1, entry.2@);
                out.push(entry);
                proof {
                    assert(out@ == old_out.push(entry));
                    assert(out@.len() == i + 1);
                    let now = out@.map_values(|m: (usize, i64, Vec<usize>)| (m.0, m.1, m.2@));
                    let want = Seq::new((i + 1) as nat, |k: int| (k as usize, 0i64, Seq::<usize>::empty()));
                    assert forall|k: int| 0 <= k < i + 1 implies now[k] == want[k] by {
                        if k < i {
                            assert(out@[k] == old_out[k]);
                            assert(now[k] == prev[k]);
                        } else {
                            assert(out@[k] == entry);
                            assert(now[k] == ev);
                        }
                    }
                    assert(now =~= want);
                }
                i += 1;
            }
            return out;
        }
        let mut i: usize = 0;
        assert(cands.take(0) =~= Seq::<Seq<char>>::empty());
        while i < n
            invariant
                n == self.candidates@.len(),
                cands == string_views(self.candidates@),
                i <= n,
                out@.map_values(|m: (usize, i64, Vec<usize>)| (m.0, m.1, m.2@)) == rank(
                    scored(cands.take(i as int), self.text@),
                ),
            decreases n - i,
        {
            proof {
                assert(cands.take(i + 1).drop_last() =~= cands.take(i as int));
                assert(cands.take(i + 1).last() == self.candidates@[i as int]@);
            }
            match fuzzy_indices(self.candidates[i].as_str(), self.text.as_str()) {
                Some(m) => {
                    let ghost before = out@.map_values(|m: (usize, i64, Vec<usize>)| (m.0, m.1, m.2@));
                    let ghost x: Scored = (i, m.0, m.1@);
                    let mut j = out.len();
                    while j > 0 && out[j - 1].1 < m.0
                        invariant
                            j <= out@.len(),
                            before == out@.map_values(|m: (usize, i64, Vec<usize>)| (m.0, m.1, m.2@)),
                            forall|t: int| j <= t < before.len() ==> (#[trigger] before[t]).1 < x.1,
                            x.1 == m.0,
                        decreases j,
                    {
                        assert(before[j - 1] == (out@[j - 1].0, out@[j - 1].1, out@[j - 1].2@));
                        j -= 1;
                    }
                    proof {
                        if j > 0 {
                            assert(before[j - 1] == (out@[j - 1].0, out@[j - 1].1, out@[j - 1].2@));
                        }
                        lemma_insert_ranked_at(before, x, j as int);
                    }
                    let sc = m.0;
                    out.insert(j, (i, sc, m.1));
                    proof {
                        assert(out@.map_values(|m: (usize, i64, Vec<usize>)| (m.0, m.1, m.2@)) =~= before.insert(
                            j as int,
                            x,
                        ));
                        let sc0 = scored(cands.take(i as int), self.text@);
                        assert(scored(cands.take(i + 1), self.text@) == sc0.push(x));
                        assert(sc0.push(x).drop_last() =~= sc0);
                        assert(rank(sc0.push(x)) == insert_ranked(rank(sc0), x));
                    }
                },
                None => {
                    assert(scored(cands.take(i + 1), self.text@) == scored(cands.take(i as int), self.text@));
                },
            }
            i += 1;
        }
        assert(cands.take(n as int) =~= cands);
        out
    }

    /// Candidates fuzzy-matching the current text, best score first (ties
    /// keep the order of the candidate list).
    pub fn filtered(&self) -> (r: Vec<String>)
        ensures
            string_views(r@) == filtered_spec(string_views(self.candidates@), self.text@),
    {
        let ms = self.matches();
        let ghost mv = ms@.map_values(|m: (usize, i64, Vec<usize>)| (m.0, m.1, m.2@));
        let ghost cands = string_views(self.candidates@);
        let nc = self.candidates.len();
        let mut out: Vec<String> = Vec::new();
        let mut i: usize = 0;
        while i < ms.len()
            invariant
                nc == self.candidates@.len(),
                i <= ms@.len(),
                mv == ms@.map_values(|m: (usize, i64, Vec<usize>)| (m.0, m.1, m.2@)),
                mv == matches_spec(cands, self.text@),
                cands == string_views(self.candidates@),
                string_views(out@) == mv.take(i as int).map_values(|m: Scored| cands[m.0 as int]),
            decreases ms.len() - i,
        {
            proof {
                lemma_matches_in_range(cands, self.text@);
                assert(mv[i as int].0 == ms@[i as int].0);
            }
            let k = ms[i].0;
            let ghost before = string_views(out@);
            out.push(self.candidates[k].clone());
            proof {
                assert(string_views(out@) =~= before.push(cands[k as int]));
                assert(mv.take(i + 1).map_values(|m: Scored| cands[m.0 as int]) =~= mv.take(i as int).map_values(
                    |m: Scored| cands[m.0 as int],
                ).push(cands[k as int]));
            }
            i += 1;
        }
        assert(mv.take(i as int) =~= mv);
        out
    }

    /// Move the selection by `delta`, within the offered candidates.
    pub fn move_selection(&mut self, delta: isize)
        ensures
            final(self).selected == moved_selection(
                old(self).selected,
                filtered_spec(string_views(old(self).candidates@), old(self).text@).len(),
                delta as int,
            ),
            final(self).text == old(self).text,
            final(self).cursor == old(self).cursor,
            final(self).candidates == old(self).candidates,
            final(self).prompt == old(self).prompt,
    {
        let len = self.filtered().len();
        if len == 0 {
            return;
        }
        let base = if self.selected < len { self.selected } else { len - 1 };
        let m: usize = if delta < 0 {
            let d = (0 - (delta as i128)) as usize;
            if base < d { 0 } else { base - d }
        } else {
            let d = delta as usize;
            if base > usize::MAX - d { usize::MAX } else { base + d }
        };
        self.selected = if m < len { m } else { len - 1 };
    }
}

/// Every offered entry points at a candidate.
pub proof fn lemma_matches_in_range(cands: Seq<Seq<char>>, text: Seq<char>)
    requires
        cands.len() <= usize::MAX,
    ensures
        forall|i: int| 0 <= i < matches_spec(cands, text).len() ==> (#[trigger] matches_spec(cands, text)[i]).0 < cands.len(),
{
    if text.len() > 0 {
        lemma_scored_in_range(cands, text);
        lemma_rank_keeps(scored(cands, text));
    }
}

proof fn lemma_scored_in_range(cands: Seq<Seq<char>>, text: Seq<char>)
    requires
        cands.len() <= usize::MAX,
    ensures
        forall|i: int| 0 <= i < scored(cands, text).len() ==> (#[trigger] scored(cands, text)[i]).0 < cands.len(),
    decreases cands.len(),
{
    if cands.len() > 0 {
        lemma_scored_in_range(cands.drop_last(), text);
        let rest = scored(cands.drop_last(), text);
        assert forall|i: int| 0 <= i < scored(cands, text).len() implies (#[trigger] scored(cands, text)[i]).0 < cands.len() by {
            if i < rest.len() {
                assert(scored(cands, text)[i] == rest[i]);
            }
        }
    }
}

/// Ranking only reorders.
proof fn lemma_rank_keeps(s: Seq<Scored>)
    ensures
        rank(s).to_multiset() == s.to_multiset(),
        rank(s).len() == s.len(),
        forall|i: int| 0 <= i < rank(s).len() ==> s.contains(#[trigger] rank(s)[i]),
    decreases s.len(),
{
    broadcast use vstd::seq_lib::group_to_multiset_ensures;
    if s.len() > 0 {
        lemma_rank_keeps(s.drop_last());
        let r = rank(s.drop_last());
        lemma_insert_ranked_perm(r, s.last());
        assert(s =~= s.drop_last().push(s.last()));
        vstd::seq_lib::to_multiset_build(s.drop_last(), s.last());
        assert forall|i: int| 0 <= i < rank(s).len() implies s.contains(#[trigger] rank(s)[i]) by {
            let y = rank(s)[i];
            assert(rank(s).to_multiset().count(y) > 0);
            assert(s.to_multiset().count(y) > 0);
        }
    }
}

proof fn lemma_insert_ranked_perm(s: Seq<Scored>, x: Scored)
    ensures
        insert_ranked(s, x).to_multiset() == s.to_multiset().insert(x),
        insert_ranked(s, x).len() == s.len() + 1,
    decreases s.len(),
{
    broadcast use vstd::seq_lib::group_to_multiset_ensures;
    if s.len() == 0 {
        assert(seq![x] =~= Seq::<Scored>::empty().push(x));
    } else if s.last().1 >= x.1 {
    } else {
        lemma_insert_ranked_perm(s.drop_last(), x);
        assert(s =~= s.drop_last().push(s.last()));
        vstd::seq_lib::to_multiset_build(s.drop_last(), s.last());
    }
}


/// The text submitted on RET: the selected candidate of a picker (clamped
/// to the offered ones), else the typed text, trimmed.
pub open spec fn submitted(o: &InputState) -> Seq<char> {
    let f = filtered_spec(string_views(o.candidates@), o.text@);
    if o.candidates@.len() > 0 && f.len() > 0 {
        f[if o.selected < f.len() { o.selected as int } else { f.len() - 1 }]
    } else {
        trim(o.text@)
    }
}

/// What feeding `kp` to the input `o` does: `n` is the input afterwards
/// and `r` what comes back.
pub open spec fn input_key_spec(o: &InputState, n: &InputState, kp: KeyPress, r: InputResult) -> bool {
    let ctrl = kp.mods.ctrl;
    let alt = kp.mods.alt;
    let len = o.text@.len();
    let f = filtered_spec(string_views(o.candidates@), o.text@);
    let same = n.text@ == o.text@ && n.cursor == o.cursor && n.selected == o.selected;
    &&& n.candidates@ == o.candidates@
    &&& n.prompt@ == o.prompt@
    &&& match kp.code {
        KeyCode::Esc => r == InputResult::Cancel && same,
        KeyCode::Enter => (r matches InputResult::Submit(v) && v@ == submitted(o)) && same,
        KeyCode::Char('g') if ctrl => r == InputResult::Cancel && same,
        _ => r == InputResult::Consumed && match kp.code {
            KeyCode::Up => n.selected == moved_selection(o.selected, f.len(), -1) && n.text@ == o.text@
                && n.cursor == o.cursor,
            KeyCode::Down => n.selected == moved_selection(o.selected, f.len(), 1) && n.text@ == o.text@
                && n.cursor == o.cursor,
            KeyCode::Char('p') if ctrl => n.selected == moved_selection(o.selected, f.len(), -1)
                && n.text@ == o.text@ && n.cursor == o.cursor,
            KeyCode::Char('n') if ctrl => n.selected == moved_selection(o.selected, f.len(), 1)
                && n.text@ == o.text@ && n.cursor == o.cursor,
            KeyCode::Tab => if o.selected < f.len() {
                n.text@ == f[o.selected as int] && n.cursor == f[o.selected as int].len() && n.selected
                    == o.selected
            } else {
                same
            },
            KeyCode::Char('u') if ctrl => n.text@.len() == 0 && n.cursor == 0 && n.selected == 0,
            KeyCode::Char(c) if !ctrl && !alt => n.text@ == o.text@.insert(o.cursor as int, c) && n.cursor
                == o.cursor + 1 && n.selected == 0,
            KeyCode::Backspace if o.cursor > 0 => n.text@ == o.text@.remove(o.cursor - 1) && n.cursor
                == o.cursor - 1 && n.selected == 0,
            KeyCode::Delete if o.cursor < len => n.text@ == o.text@.remove(o.cursor as int) && n.cursor
                == o.cursor && n.selected == 0,
            KeyCode::Left => n.text@ == o.text@ && n.selected == o.selected && n.cursor == (if o.cursor > 0 {
                o.cursor - 1
            } else {
                0
            }),
            KeyCode::Right => n.text@ == o.text@ && n.selected == o.selected && n.cursor == (if o.cursor
                < len {
                o.cursor + 1
            } else {
                len as int
            }),
            KeyCode::Home => n.text@ == o.text@ && n.selected == o.selected && n.cursor == 0,
            KeyCode::End => n.text@ == o.text@ && n.selected == o.selected && n.cursor == len,
            _ => same,
        },
    }
}

impl InputState {
    /// Feed one key to the input.
    pub fn on_key(&mut self, kp: &KeyPress) -> (r: InputResult)
        requires
            old(self).wf(),
            old(self).text@.len() < usize::MAX,
        ensures
            final(self).wf(),
            input_key_spec(&*old(self), &*final(self), *kp, r),
    {
        let ctrl = kp.mods.ctrl;
        let alt = kp.mods.alt;
        let v = chars_of(self.text.as_str());
        let len = v.len();
        match kp.code {
            KeyCode::Esc => InputResult::Cancel,
            KeyCode::Enter => {
                let f = self.filtered();
                if self.is_picker() && f.len() > 0 {
                    let i = if self.selected < f.len() { self.selected } else { f.len() - 1 };
                    InputResult::Submit(f[i].clone())
                } else {
                    let t = trim_exec(&v);
                    InputResult::Submit(string_of(&t))
                }
            },
            KeyCode::Char('g') if ctrl => InputResult::Cancel,
            KeyCode::Up => {
                self.move_selection(-1);
                InputResult::Consumed
            },
            KeyCode::Down => {
                self.move_selection(1);
                InputResult::Consumed
            },
            KeyCode::Char('p') if ctrl => {
                self.move_selection(-1);
                InputResult::Consumed
            },
            KeyCode::Char('n') if ctrl => {
                self.move_selection(1);
                InputResult::Consumed
            },
            KeyCode::Tab => {
                let f = self.filtered();
                if self.selected < f.len() {
                    let t = f[self.selected].clone();
                    let tv = chars_of(t.as_str());
                    self.cursor = tv.len();
                    self.text = t;
                }
                InputResult::Consumed
            },
            KeyCode::Char('u') if ctrl => {
                self.text = String::new();
                self.cursor = 0;
                self.selected = 0;
                InputResult::Consumed
            },
            KeyCode::Char(c) if !ctrl && !alt => {
                let mut w = v;
                w.insert(self.cursor, c);
                self.text = string_of(&w);
                self.cursor = self.cursor + 1;
                self.selected = 0;
                InputResult::Consumed
            },
            KeyCode::Backspace if self.cursor > 0 => {
                let mut w = v;
                w.remove(self.cursor - 1);
                self.text = string_of(&w);
                self.cursor = self.cursor - 1;
                self.selected = 0;
                InputResult::Consumed
            },
            KeyCode::Delete if self.cursor < len => {
                let mut w = v;
                w.remove(self.cursor);
                self.text = string_of(&w);
                self.selected = 0;
                InputResult::Consumed
            },
            KeyCode::Left => {
                if self.cursor > 0 {
                    self.cursor = self.cursor - 1;
                }
                InputResult::Consumed
            },
            KeyCode::Right => {
                if self.cursor < len {
                    self.cursor = self.cursor + 1;
                }
                InputResult::Consumed
            },
            KeyCode::Home => {
                self.cursor = 0;
                InputResult::Consumed
            },
            KeyCode::End => {
                self.cursor = len;
                InputResult::Consumed
            },
            _ => InputResult::Consumed,
        }
    }
}

/// The number of bytes that `c` takes in UTF-8.
pub open spec fn utf8_len(c: char) -> nat {
    if (c as u32) < 0x80 {
        1
    } else if (c as u32) < 0x800 {
        2
    } else if (c as u32) < 0x10000 {
        3
    } else {
        4
    }
}

/// The number of bytes that `s` takes in UTF-8.
pub open spec fn utf8_width(s: Seq<char>) -> nat
    decreases s.len(),
{
    if s.len() == 0 {
        0
    } else {
        utf8_width(s.drop_last()) + utf8_len(s.last())
    }
}

/// The byte offset of the char at `char_idx` in `s` (the byte length of
/// `s` past its end).
pub fn byte_index(s: &str, char_idx: usize) -> (r: usize)
    requires
        utf8_width(s@) <= usize::MAX,
    ensures
        r == utf8_width(s@.take(if char_idx < s@.len() { char_idx as int } else { s@.len() as int })),
{
    let v = chars_of(s);
    let end = if char_idx < v.len() { char_idx } else { v.len() };
    let mut i: usize = 0;
    let mut b: usize = 0;
    proof {
        lemma_utf8_width_prefix(v@, end as int);
    }
    assert(v@.take(0) =~= Seq::<char>::empty());
    while i < end
        invariant
            v@ == s@,
            end <= v@.len(),
            i <= end,
            b == utf8_width(v@.take(i as int)),
            utf8_width(v@.take(end as int)) <= usize::MAX,
            forall|j: int| 0 <= j <= end ==> utf8_width(#[trigger] v@.take(j)) <= utf8_width(v@.take(end as int)),
        decreases end - i,
    {
        let c = v[i];
        let w: usize = if (c as u32) < 0x80 {
            1
        } else if (c as u32) < 0x800 {
            2
        } else if (c as u32) < 0x10000 {
            3
        } else {
            4
        };
        proof {
            assert(v@.take(i + 1).drop_last() =~= v@.take(i as int));
            assert(v@.take(i + 1).last() == c);
            assert(utf8_width(v@.take(i + 1)) <= utf8_width(v@.take(end as int)));
        }
        b = b + w;
        i += 1;
    }
    b
}

/// Widths of prefixes grow with their length, up to the whole.
proof fn lemma_utf8_width_prefix(s: Seq<char>, end: int)
    requires
        0 <= end <= s.len(),
    ensures
        utf8_width(s.take(end)) <= utf8_width(s),
        forall|j: int| 0 <= j <= end ==> utf8_width(#[trigger] s.take(j)) <= utf8_width(s.take(end)),
    decreases s.len() - end,
{
    if end < s.len() {
        lemma_utf8_width_prefix(s, end + 1);
        assert(s.take(end + 1).drop_last() =~= s.take(end));
    } else {
        assert(s.take(end) =~= s);
    }
    assert forall|j: int| 0 <= j <= end implies utf8_width(#[trigger] s.take(j)) <= utf8_width(s.take(end)) by {
        lemma_utf8_width_mono(s, j, end);
    }
}

proof fn lemma_utf8_width_mono(s: Seq<char>, j: int, k: int)
    requires
        0 <= j <= k <= s.len(),
    ensures
        utf8_width(s.take(j)) <= utf8_width(s.take(k)),
    decreases k - j,
{
    if j < k {
        lemma_utf8_width_mono(s, j, k - 1);
        assert(s.take(k).drop_last() =~= s.take(k - 1));
    }
}


/// Best score first; equal scores in ascending candidate order.
pub open spec fn ranked(s: Seq<Scored>) -> bool {
    forall|i: int, j: int|
        0 <= i < j < s.len() ==> (#[trigger] s[i]).1 > (#[trigger] s[j]).1 || (s[i].1 == s[j].1 && s[i].0
            < s[j].0)
}

proof fn lemma_insert_ranked_members(r: Seq<Scored>, x: Scored)
    ensures
        forall|i: int|
            0 <= i < insert_ranked(r, x).len() ==> #[trigger] insert_ranked(r, x)[i] == x || r.contains(
                insert_ranked(r, x)[i],
            ),
    decreases r.len(),
{
    lemma_insert_ranked_perm(r, x);
    if r.len() > 0 && r.last().1 < x.1 {
        lemma_insert_ranked_members(r.drop_last(), x);
        let q = insert_ranked(r.drop_last(), x);
        assert forall|i: int| 0 <= i < insert_ranked(r, x).len() implies #[trigger] insert_ranked(r, x)[i] == x
            || r.contains(insert_ranked(r, x)[i]) by {
            if i < q.len() {
                assert(insert_ranked(r, x)[i] == q[i]);
                if q[i] != x {
                    let j = choose|j: int| 0 <= j < r.drop_last().len() && r.drop_last()[j] == q[i];
                    assert(r[j] == q[i]);
                }
            } else {
                assert(insert_ranked(r, x)[i] == r[r.len() - 1]);
            }
        }
    } else if r.len() > 0 {
        assert forall|i: int| 0 <= i < insert_ranked(r, x).len() implies #[trigger] insert_ranked(r, x)[i] == x
            || r.contains(insert_ranked(r, x)[i]) by {
            if i < r.len() {
                assert(insert_ranked(r, x)[i] == r[i]);
            }
        }
    }
}

proof fn lemma_insert_ranked_stable(r: Seq<Scored>, x: Scored)
    requires
        ranked(r),
        forall|t: int| 0 <= t < r.len() ==> (#[trigger] r[t]).0 < x.0,
    ensures
        ranked(insert_ranked(r, x)),
    decreases r.len(),
{
    if r.len() == 0 {
    } else if r.last().1 >= x.1 {
        let n = r.push(x);
        assert forall|i: int, j: int| 0 <= i < j < n.len() implies (#[trigger] n[i]).1 > (#[trigger] n[j]).1 || (n[i].1
            == n[j].1 && n[i].0 < n[j].0) by {
            if j == r.len() {
                assert(n[i] == r[i]);
                if i < r.len() - 1 {
                    assert(r[i].1 >= r[r.len() - 1].1);
                }
            } else {
                assert(n[i] == r[i] && n[j] == r[j]);
            }
        }
    } else {
        let d = r.drop_last();
        let l = r.last();
        assert(ranked(d)) by {
            assert forall|i: int, j: int| 0 <= i < j < d.len() implies (#[trigger] d[i]).1 > (#[trigger] d[j]).1 || (d[i].1
                == d[j].1 && d[i].0 < d[j].0) by {
                assert(d[i] == r[i] && d[j] == r[j]);
            }
        }
        assert forall|t: int| 0 <= t < d.len() implies (#[trigger] d[t]).0 < x.0 by {
            assert(d[t] == r[t]);
        }
        lemma_insert_ranked_stable(d, x);
        lemma_insert_ranked_members(d, x);
        let q = insert_ranked(d, x);
        let n = q.push(l);
        assert forall|i: int, j: int| 0 <= i < j < n.len() implies (#[trigger] n[i]).1 > (#[trigger] n[j]).1 || (n[i].1
            == n[j].1 && n[i].0 < n[j].0) by {
            if j == q.len() {
                assert(n[i] == q[i] && n[j] == l);
                if q[i] != x {
                    let k = choose|k: int| 0 <= k < d.len() && d[k] == q[i];
                    assert(r[k] == q[i]);
                    assert(r[r.len() - 1] == l);
                }
            } else {
                assert(n[i] == q[i] && n[j] == q[j]);
            }
        }
    }
}

/// The picker's ranking puts better scores first and keeps candidate
/// order among equal scores, and only reorders.
pub proof fn law_rank_best_first_and_stable(s: Seq<Scored>)
    requires
        forall|i: int, j: int| 0 <= i < j < s.len() ==> (#[trigger] s[i]).0 < (#[trigger] s[j]).0,
    ensures
        ranked(rank(s)),
        rank(s).to_multiset() == s.to_multiset(),
    decreases s.len(),
{
    lemma_rank_keeps(s);
    if s.len() > 0 {
        let d = s.drop_last();
        assert forall|i: int, j: int| 0 <= i < j < d.len() implies (#[trigger] d[i]).0 < (#[trigger] d[j]).0 by {
            assert(d[i] == s[i] && d[j] == s[j]);
        }
        law_rank_best_first_and_stable(d);
        lemma_rank_keeps(d);
        assert forall|t: int| 0 <= t < rank(d).len() implies (#[trigger] rank(d)[t]).0 < s.last().0 by {
            let k = choose|k: int| 0 <= k < d.len() && d[k] == rank(d)[t];
            assert(s[k] == d[k]);
        }
        lemma_insert_ranked_stable(rank(d), s.last());
    }
}

proof fn lemma_scored_members(cands: Seq<Seq<char>>, text: Seq<char>)
    requires
        cands.len() <= usize::MAX,
    ensures
        forall|i: int|
            0 <= i < scored(cands, text).len() ==> skim_match(cands[(#[trigger] scored(cands, text)[i]).0 as int], text)
                == Some((scored(cands, text)[i].1, scored(cands, text)[i].2)),
        forall|k: int|
            0 <= k < cands.len() && (#[trigger] skim_match(cands[k], text)) is Some ==> exists|i: int|
                0 <= i < scored(cands, text).len() && scored(cands, text)[i].0 == k,
    decreases cands.len(),
{
    if cands.len() > 0 {
        let init = cands.drop_last();
        lemma_scored_members(init, text);
        lemma_scored_in_range(init, text);
        let rest = scored(init, text);
        let sc = scored(cands, text);
        assert forall|i: int| 0 <= i < sc.len() implies skim_match(cands[(#[trigger] sc[i]).0 as int], text) == Some(
            (sc[i].1, sc[i].2),
        ) by {
            if i < rest.len() {
                assert(sc[i] == rest[i]);
                assert(init[rest[i].0 as int] == cands[rest[i].0 as int]);
            }
        }
        assert forall|k: int| 0 <= k < cands.len() && (#[trigger] skim_match(cands[k], text)) is Some implies exists|i: int|
            0 <= i < sc.len() && sc[i].0 == k by {
            if k < init.len() {
                assert(init[k] == cands[k]);
                let i = choose|i: int| 0 <= i < rest.len() && rest[i].0 == k;
                assert(sc[i] == rest[i]);
            } else {
                assert(sc[sc.len() - 1].0 == k);
            }
        }
    }
}

/// The picker's list: with no text, every candidate in order; otherwise
/// exactly the candidates the matcher accepts, each once with its score and
/// positions, best score first and in candidate order among equal scores.
pub proof fn law_filtered(cands: Seq<Seq<char>>, text: Seq<char>)
    requires
        cands.len() <= usize::MAX,
    ensures
        text.len() == 0 ==> filtered_spec(cands, text) == cands,
        text.len() > 0 ==> ({
            let m = matches_spec(cands, text);
            &&& ranked(m)
            &&& forall|i: int|
                0 <= i < m.len() ==> (#[trigger] m[i]).0 < cands.len() && skim_match(cands[m[i].0 as int], text) == Some(
                    (m[i].1, m[i].2),
                )
            &&& forall|k: int|
                0 <= k < cands.len() && (#[trigger] skim_match(cands[k], text)) is Some ==> exists|i: int|
                    0 <= i < m.len() && m[i].0 == k
            &&& filtered_spec(cands, text) == m.map_values(|x: Scored| cands[x.0 as int])
        }),
{
    broadcast use vstd::seq_lib::group_to_multiset_ensures;
    if text.len() == 0 {
        assert(filtered_spec(cands, text) =~= cands);
    } else {
        let sc = scored(cands, text);
        let m = matches_spec(cands, text);
        lemma_scored_ascending(cands, text);
        lemma_scored_members(cands, text);
        law_rank_best_first_and_stable(sc);
        lemma_rank_keeps(sc);
        lemma_matches_in_range(cands, text);
        assert forall|i: int| 0 <= i < m.len() implies (#[trigger] m[i]).0 < cands.len() && skim_match(
            cands[m[i].0 as int],
            text,
        ) == Some((m[i].1, m[i].2)) by {
            assert(sc.contains(m[i]));
            let j = choose|j: int| 0 <= j < sc.len() && sc[j] == m[i];
            assert(sc[j] == m[i]);
        }
        assert forall|k: int| 0 <= k < cands.len() && (#[trigger] skim_match(cands[k], text)) is Some implies exists|i: int|
            0 <= i < m.len() && m[i].0 == k by {
            let j = choose|j: int| 0 <= j < sc.len() && sc[j].0 == k;
            assert(sc.contains(sc[j]));
            assert(sc.to_multiset().count(sc[j]) > 0);
            assert(m.to_multiset().count(sc[j]) > 0);
            assert(m.contains(sc[j]));
        }
    }
}

/// The scored candidates come in ascending candidate order.
pub proof fn lemma_scored_ascending(cands: Seq<Seq<char>>, text: Seq<char>)
    requires
        cands.len() <= usize::MAX,
    ensures
        forall|i: int, j: int|
            0 <= i < j < scored(cands, text).len() ==> (#[trigger] scored(cands, text)[i]).0 < (#[trigger] scored(
                cands,
                text,
            )[j]).0,
    decreases cands.len(),
{
    if cands.len() > 0 {
        lemma_scored_ascending(cands.drop_last(), text);
        lemma_scored_in_range(cands.drop_last(), text);
        let rest = scored(cands.drop_last(), text);
        let sc = scored(cands, text);
        assert forall|i: int, j: int| 0 <= i < j < sc.len() implies (#[trigger] sc[i]).0 < (#[trigger] sc[j]).0 by {
            assert(sc[i] == rest[i]);
            if j < rest.len() {
                assert(sc[j] == rest[j]);
            }
        }
    }
}


// ---------------------------------------------------------------------------
// The input panel
// ---------------------------------------------------------------------------

/// Which chars the highlight marks: walking the chars, a char is marked
/// when it is the next of `indices` (consumed in order); the number
/// consumed comes second.
pub open spec fn consume_marks(indices: Seq<usize>, n: nat) -> (Seq<bool>, nat)
    decreases n,
{
    if n == 0 {
        (Seq::empty(), 0)
    } else {
        let (f, k) = consume_marks(indices, (n - 1) as nat);
        let m = k < indices.len() && indices[k as int] == n - 1;
        (f.push(m), if m { k + 1 } else { k })
    }
}

/// The chars of `text` grouped into runs of equal marking.
pub open spec fn mark_runs(text: Seq<char>, flags: Seq<bool>) -> Seq<(Seq<char>, bool)>
    decreases text.len(),
{
    if text.len() == 0 {
        Seq::empty()
    } else {
        let r = mark_runs(text.drop_last(), flags);
        let m = flags[text.len() - 1];
        if r.len() > 0 && r.last().1 == m {
            r.drop_last().push((r.last().0.push(text.last()), m))
        } else {
            r.push((seq![text.last()], m))
        }
    }
}

/// `base` with the match color and bold.
pub open spec fn matched_style(base: Style, match_fg: Color) -> Style {
    Style { fg: Some(match_fg), bold: true, ..base }
}

/// The spans of `text` with the chars at `indices` (ascending char
/// positions) in `match_fg` over `base`; consecutive chars with the same
/// styling form one span.
pub open spec fn highlight_spans_spec(text: Seq<char>, indices: Seq<usize>, base: Style, match_fg: Color) -> LineView {
    mark_runs(text, consume_marks(indices, text.len()).0).map_values(
        |r: (Seq<char>, bool)| (r.0, if r.1 { matched_style(base, match_fg) } else { base }),
    )
}

/// Split `text` into spans, styling the chars at `indices` (ascending char
/// positions) with `match_fg` layered over `base`.
pub fn highlight_spans(text: &str, indices: &[usize], base: Style, match_fg: Color) -> (r: Vec<Span>)
    ensures
        r@.map_values(|s: Span| (s.text@, s.style)) == highlight_spans_spec(text@, indices@, base, match_fg),
{
    let v = chars_of(text);
    let mut runs: Vec<(Vec<char>, bool)> = Vec::new();
    let mut next: usize = 0;
    let mut i: usize = 0;
    assert(v@.take(0) =~= Seq::<char>::empty());
    assert(runs@.map_values(|x: (Vec<char>, bool)| (x.0@, x.1)) =~= Seq::<(Seq<char>, bool)>::empty());
    while i < v.len()
        invariant
            i <= v@.len(),
            v@ == text@,
            next == consume_marks(indices@, i as nat).1,
            next <= indices@.len(),
            forall|j: int| 0 <= j < i ==> consume_marks(indices@, i as nat).0[j] == consume_marks(indices@, v@.len()).0[j],
            runs@.map_values(|x: (Vec<char>, bool)| (x.0@, x.1)) == mark_runs(
                v@.take(i as int),
                consume_marks(indices@, v@.len()).0,
            ),
        decreases v.len() - i,
    {
        let m = next < indices.len() && indices[next] == i;
        let c = v[i];
        let ghost before = runs@.map_values(|x: (Vec<char>, bool)| (x.0@, x.1));
        proof {
            lemma_consume_prefix(indices@, (i + 1) as nat, v@.len());
            assert(consume_marks(indices@, v@.len()).0[i as int] == m);
            assert(v@.take(i + 1).drop_last() =~= v@.take(i as int));
            assert(v@.take(i + 1).last() == c);
        }
        let n = runs.len();
        if n > 0 && runs[n - 1].1 == m {
            let (mut seg, mm) = runs.pop().unwrap();
            let ghost sv = seg@;
            seg.push(c);
            runs.push((seg, mm));
            proof {
                assert(before.last() == (sv, mm));
                assert(runs@.map_values(|x: (Vec<char>, bool)| (x.0@, x.1)) =~= before.drop_last().push((sv.push(c), m)));
            }
        } else {
            let mut seg: Vec<char> = Vec::new();
            seg.push(c);
            runs.push((seg, m));
            assert(runs@.map_values(|x: (Vec<char>, bool)| (x.0@, x.1)) =~= before.push((seq![c], m)));
        }
        if m {
            next += 1;
        }
        proof {
            lemma_consume_prefix(indices@, (i + 1) as nat, v@.len());
            assert forall|j: int| 0 <= j < i + 1 implies consume_marks(indices@, (i + 1) as nat).0[j] == consume_marks(
                indices@,
                v@.len(),
            ).0[j] by {
                lemma_consume_prefix(indices@, (i + 1) as nat, v@.len());
            }
        }
        i += 1;
    }
    assert(v@.take(i as int) =~= v@);
    let ghost rv = runs@.map_values(|x: (Vec<char>, bool)| (x.0@, x.1));
    let ms = Style { fg: Some(match_fg), bold: true, ..base };
    let mut out: Vec<Span> = Vec::new();
    let mut k: usize = 0;
    let ghost want = highlight_spans_spec(text@, indices@, base, match_fg);
    assert(want.take(0) =~= Seq::<(Seq<char>, Style)>::empty());
    assert(out@.map_values(|s: Span| (s.text@, s.style)) =~= Seq::<(Seq<char>, Style)>::empty());
    while k < runs.len()
        invariant
            k <= runs@.len(),
            rv == runs@.map_values(|x: (Vec<char>, bool)| (x.0@, x.1)),
            rv == mark_runs(text@, consume_marks(indices@, text@.len()).0),
            want == highlight_spans_spec(text@, indices@, base, match_fg),
            want.len() == rv.len(),
            ms == matched_style(base, match_fg),
            out@.map_values(|s: Span| (s.text@, s.style)) == want.take(k as int),
        decreases runs.len() - k,
    {
        let ghost b = out@.map_values(|s: Span| (s.text@, s.style));
        let piece = Span { text: string_of(&runs[k].0), style: if runs[k].1 { ms } else { base } };
        assert(rv[k as int] == (runs@[k as int].0@, runs@[k as int].1));
        assert(want[k as int] == (rv[k as int].0, if rv[k as int].1 { ms } else { base }));
        assert((piece.text@, piece.style) == want[k as int]);
        out.push(piece);
        assert(out@.map_values(|s: Span| (s.text@, s.style)) =~= b.push(want[k as int]));
        assert(want.take(k + 1) =~= want.take(k as int).push(want[k as int]));
        k += 1;
    }
    assert(want.take(k as int) =~= want);
    out
}

/// The marks of the first `i` chars do not change as more chars follow.
proof fn lemma_consume_prefix(indices: Seq<usize>, i: nat, n: nat)
    requires
        i <= n,
    ensures
        consume_marks(indices, i).0.len() == i,
        consume_marks(indices, i).1 <= indices.len(),
        forall|j: int| 0 <= j < i ==> consume_marks(indices, i).0[j] == consume_marks(indices, n).0[j],
    decreases n,
{
    if i < n {
        lemma_consume_prefix(indices, i, (n - 1) as nat);
        lemma_consume_prefix(indices, (n - 1) as nat, (n - 1) as nat);
    } else if n > 0 {
        lemma_consume_prefix(indices, (n - 1) as nat, (n - 1) as nat);
    }
}


pub open spec fn plain_style() -> Style {
    Style { fg: None, bg: None, bold: false, dim: false, reversed: false, crossed_out: false }
}

/// The line of one offered candidate, its matched chars highlighted and the
/// selected one marked.
pub open spec fn candidate_line(cand: Seq<char>, indices: Seq<usize>, selected: bool, t: Theme) -> LineView {
    let base = if selected {
        Style { fg: Some(t.picker_selected_fg), bg: Some(t.picker_selected_bg), bold: true, dim: false, reversed: false, crossed_out: false }
    } else {
        plain_style()
    };
    seq![(if selected { "▸ "@ } else { "  "@ }, Style { fg: Some(t.picker_marker), ..base })]
        + highlight_spans_spec(cand, indices, base, t.picker_match)
}

/// The input line: the prompt, the text with the char under the cursor
/// reversed (a space past the end), and the offered/total counts of a
/// picker.
pub open spec fn input_line(text: Seq<char>, cursor: nat, counts: Option<(nat, nat)>, t: Theme) -> LineView {
    let at = if cursor < text.len() { seq![text[cursor as int]] } else { seq![' '] };
    let after_start = if cursor + 1 < text.len() { cursor + 1 } else { text.len() };
    seq![
        ("> "@, Style { fg: Some(t.input_prompt), bold: true, ..plain_style() }),
        (text.take(cursor as int), plain_style()),
        (at, Style { reversed: true, ..plain_style() }),
        (text.skip(after_start as int), plain_style()),
    ] + match counts {
        Some((shown, total)) => seq![("  "@ + decimal(shown) + "/"@ + decimal(total), Style { fg: Some(t.picker_count), ..plain_style() })],
        None => Seq::empty(),
    }
}

/// The lines of the bottom panel: a picker's offered candidates (at most
/// `max` of them, the selection in view) or a note that none matches, then
/// the input line.
pub open spec fn panel_lines(st: &InputState, t: Theme, max: nat) -> Seq<LineView> {
    let cands = string_views(st.candidates@);
    if st.candidates@.len() > 0 {
        let ms = matches_spec(cands, st.text@);
        let sel: int = if st.selected < ms.len() { st.selected as int } else if ms.len() > 0 { ms.len() - 1 } else { 0 };
        let start: int = if sel > max - 1 && max > 0 { sel - (max - 1) } else if max == 0 { sel } else { 0 };
        let end: int = if start + max < ms.len() { start + max } else { ms.len() as int };
        let shown = if start < end {
            Seq::new((end - start) as nat, |k: int| candidate_line(cands[ms[start + k].0 as int], ms[start + k].2, start + k == sel, t))
        } else {
            Seq::empty()
        };
        shown + (if ms.len() == 0 {
            seq![seq![("  (no match — RET uses the typed text)"@, Style { dim: true, ..plain_style() })]]
        } else {
            Seq::empty()
        }) + seq![input_line(st.text@, st.cursor as nat, Some((ms.len(), st.candidates@.len())), t)]
    } else {
        seq![input_line(st.text@, st.cursor as nat, None, t)]
    }
}

fn owned(s: &str) -> (r: String)
    ensures
        r@ == s@,
{
    let mut o = String::new();
    push_str(&mut o, s);
    assert(o@ =~= s@);
    o
}

fn make_input_line(text: &String, cursor: usize, counts: Option<(usize, usize)>, t: &Theme) -> (r: Line)
    requires
        cursor <= text@.len(),
    ensures
        r@ == input_line(
            text@,
            cursor as nat,
            match counts {
                Some((a, b)) => Some((a as nat, b as nat)),
                None => None,
            },
            *t,
        ),
{
    let v = chars_of(text.as_str());
    let plain = Style { fg: None, bg: None, bold: false, dim: false, reversed: false, crossed_out: false };
    let mut spans: Vec<Span> = Vec::new();
    spans.push(Span { text: owned("> "), style: Style { fg: Some(t.input_prompt), bold: true, ..plain } });
    spans.push(Span { text: string_of(&subvec(&v, 0, cursor)), style: plain });
    let at = if cursor < v.len() {
        let mut a = Vec::new();
        a.push(v[cursor]);
        a
    } else {
        let mut a = Vec::new();
        a.push(' ');
        a
    };
    spans.push(Span { text: string_of(&at), style: Style { reversed: true, ..plain } });
    let after = if cursor < v.len() { cursor + 1 } else { v.len() };
    spans.push(Span { text: string_of(&subvec(&v, after, v.len())), style: plain });
    let ghost base = spans@.map_values(|s: Span| (s.text@, s.style));
    proof {
        assert(v@.subrange(0, cursor as int) =~= text@.take(cursor as int));
        assert(v@.subrange(after as int, v@.len() as int) =~= text@.skip(after as int));
    }
    match counts {
        Some((shown, total)) => {
            let mut c = owned("  ");
            push_decimal(&mut c, shown as u64);
            push_str(&mut c, "/");
            push_decimal(&mut c, total as u64);
            spans.push(Span { text: c, style: Style { fg: Some(t.picker_count), ..plain } });
        },
        None => {},
    }
    let r = Line { spans };
    assert(r@ =~= input_line(
        text@,
        cursor as nat,
        match counts {
            Some((a, b)) => Some((a as nat, b as nat)),
            None => None,
        },
        *t,
    ));
    r
}

impl InputState {
    /// Lines for the bottom panel: the candidate list (picker only), then
    /// the input line with a block cursor.
    pub fn render_lines(&self, t: &Theme, max_candidates: usize) -> (r: Vec<Line>)
        requires
            self.wf(),
        ensures
            r@.map_values(|l: Line| l@) == panel_lines(self, *t, max_candidates as nat),
    {
        let mut out: Vec<Line> = Vec::new();
        if self.candidates.len() > 0 {
            let ms = self.matches();
            let ghost cands = string_views(self.candidates@);
            let ghost mv = ms@.map_values(|m: (usize, i64, Vec<usize>)| (m.0, m.1, m.2@));
            proof {
                lemma_matches_in_range(cands, self.text@);
            }
            let n = ms.len();
            let sel = if self.selected < n { self.selected } else if n > 0 { n - 1 } else { 0 };
            let start = if max_candidates > 0 && sel > max_candidates - 1 {
                sel - (max_candidates - 1)
            } else if max_candidates == 0 {
                sel
            } else {
                0
            };
            let end = if start < n && max_candidates < n - start { start + max_candidates } else { n };
            let plain = Style { fg: None, bg: None, bold: false, dim: false, reversed: false, crossed_out: false };
            let mut i = start;
            let ghost shown = if start < end {
                Seq::new((end - start) as nat, |k: int| candidate_line(cands[mv[start + k].0 as int], mv[start + k].2, start + k == sel, *t))
            } else {
                Seq::<LineView>::empty()
            };
            assert(out@.map_values(|l: Line| l@) =~= shown.take(0));
            while i < end
                invariant
                    start <= i <= end,
                    end <= n,
                    plain == plain_style(),
                    n == ms@.len(),
                    mv == ms@.map_values(|m: (usize, i64, Vec<usize>)| (m.0, m.1, m.2@)),
                    mv == matches_spec(cands, self.text@),
                    cands == string_views(self.candidates@),
                    forall|j: int| 0 <= j < mv.len() ==> (#[trigger] mv[j]).0 < cands.len(),
                    shown == (if start < end {
                        Seq::new((end - start) as nat, |k: int| candidate_line(cands[mv[start + k].0 as int], mv[start + k].2, start + k == sel, *t))
                    } else {
                        Seq::<LineView>::empty()
                    }),
                    out@.map_values(|l: Line| l@) == shown.take(i - start),
                decreases end - i,
            {
                let is_sel = i == sel;
                let base = if is_sel {
                    Style { fg: Some(t.picker_selected_fg), bg: Some(t.picker_selected_bg), bold: true, dim: false, reversed: false, crossed_out: false }
                } else {
                    plain
                };
                let mut spans: Vec<Span> = Vec::new();
                spans.push(Span { text: owned(if is_sel { "▸ " } else { "  " }), style: Style { fg: Some(t.picker_marker), ..base } });
                let k = ms[i].0;
                proof {
                    assert(mv[i as int].0 == k);
                    assert(k < cands.len());
                }
                let mut hl = highlight_spans(self.candidates[k].as_str(), ms[i].2.as_slice(), base, t.picker_match);
                let ghost first = spans@.map_values(|s: Span| (s.text@, s.style));
                let ghost hv = hl@.map_values(|s: Span| (s.text@, s.style));
                let ghost s0 = spans@;
                let ghost h0 = hl@;
                spans.append(&mut hl);
                let line = Line { spans };
                proof {
                    assert(line@ =~= first + hv);
                    assert(mv[i as int].2 == ms@[i as int].2@);
                    assert(first =~= seq![(if is_sel { "▸ "@ } else { "  "@ }, Style { fg: Some(t.picker_marker), ..base })]);
                    assert(base == (if is_sel {
                        Style { fg: Some(t.picker_selected_fg), bg: Some(t.picker_selected_bg), bold: true, dim: false, reversed: false, crossed_out: false }
                    } else {
                        plain_style()
                    }));
                    assert(hv == highlight_spans_spec(cands[k as int], mv[i as int].2, base, t.picker_match));
                    assert(shown[i - start] == candidate_line(cands[mv[i as int].0 as int], mv[i as int].2, i == sel, *t));
                    assert(line@ =~= candidate_line(cands[mv[i as int].0 as int], mv[i as int].2, i == sel, *t));
                }
                let ghost before = out@.map_values(|l: Line| l@);
                out.push(line);
                assert(out@.map_values(|l: Line| l@) =~= before.push(shown[i - start]));
                assert(shown.take(i + 1 - start) =~= shown.take(i - start).push(shown[i - start]));
                i += 1;
            }
            assert(shown.take(i - start) =~= shown);
            if n == 0 {
                let mut spans: Vec<Span> = Vec::new();
                spans.push(Span { text: owned("  (no match — RET uses the typed text)"), style: Style { dim: true, ..plain } });
                let l = Line { spans };
                assert(l@ =~= seq![("  (no match — RET uses the typed text)"@, Style { dim: true, ..plain_style() })]);
                let ghost before = out@.map_values(|l: Line| l@);
                out.push(l);
                assert(out@.map_values(|l: Line| l@) =~= before.push(seq![("  (no match — RET uses the typed text)"@, Style { dim: true, ..plain_style() })]));
            }
            let il = make_input_line(&self.text, self.cursor, Some((n, self.candidates.len())), t);
            let ghost before = out@.map_values(|l: Line| l@);
            out.push(il);
            assert(out@.map_values(|l: Line| l@) =~= before.push(il@));
        } else {
            let il = make_input_line(&self.text, self.cursor, None, t);
            out.push(il);
            assert(out@.map_values(|l: Line| l@) =~= seq![il@]);
        }
        out
    }
}

} // verus!
