//! A pane = one buffer: a section tree plus cursor, viewport and fold state.
//! Navigation, scrolling and refresh-survival are shared by all buffer kinds.

use vstd::prelude::*;

use crate::git::types::{DiffArea, FileDiff};
use crate::keymap::PaneKind;
use crate::text::{chars_of, contains, find_exec};
use crate::ui::section::{
    apply_states, at_path_spec, flat_views, flatten, flatten_spec, line_text, states_of, toggled_at,
    lemma_at_path_from, lemma_replaced_toggled, FlatLine, FlatLineView, Line, LineView, Section, SectionId, SectionValue, Span,
    Style,
};

verus! {

/// What `str::to_lowercase` gives for `s` (full Unicode case mapping).
pub uninterp spec fn lowercase(s: Seq<char>) -> Seq<char>;

/// Whether `char::is_uppercase` holds of `c` (the Unicode Uppercase
/// property).
pub uninterp spec fn is_uppercase(c: char) -> bool;

/// The first char of `char::to_lowercase(c)` (`c` itself if none).
pub uninterp spec fn lower_first(c: char) -> char;

/// `str::to_lowercase`: the contract claims only that the result is a
/// function of `s`, named `lowercase`.
#[verifier::external_body]
fn to_lowercase(s: &str) -> (r: String)
    ensures
        r@ == lowercase(s@),
{
    s.to_lowercase()
}

/// `char::is_uppercase`, named `is_uppercase`.
#[verifier::external_body]
fn char_is_uppercase(c: char) -> (r: bool)
    ensures
        r == is_uppercase(c),
{
    c.is_uppercase()
}

/// The first char of `char::to_lowercase`, named `lower_first`.
#[verifier::external_body]
fn char_lower_first(c: char) -> (r: char)
    ensures
        r == lower_first(c),
{
    c.to_lowercase().next().unwrap_or(c)
}

/// Smart case: a query with an uppercase char is case-sensitive.
pub open spec fn sensitive(q: Seq<char>) -> bool {
    exists|i: int| 0 <= i < q.len() && is_uppercase(#[trigger] q[i])
}

fn has_uppercase(q: &Vec<char>) -> (r: bool)
    ensures
        r == sensitive(q@),
{
    let mut i: usize = 0;
    while i < q.len()
        invariant
            i <= q@.len(),
            forall|j: int| 0 <= j < i ==> !is_uppercase(#[trigger] q@[j]),
        decreases q.len() - i,
    {
        if char_is_uppercase(q[i]) {
            return true;
        }
        i += 1;
    }
    false
}

/// Whether a line's text matches the query, smart-case.
pub open spec fn line_matches(text: Seq<char>, q: Seq<char>) -> bool {
    if sensitive(q) {
        contains(text, q)
    } else {
        contains(lowercase(text), lowercase(q))
    }
}

/// The indices of the lines matching `q`, ascending.
pub open spec fn matches_spec(lines: Seq<FlatLineView>, q: Seq<char>) -> Seq<usize>
    decreases lines.len(),
{
    if lines.len() == 0 {
        Seq::empty()
    } else {
        let rest = matches_spec(lines.drop_last(), q);
        if line_matches(line_text(lines.last().line), q) {
            rest.push((lines.len() - 1) as usize)
        } else {
            rest
        }
    }
}

/// The first heading line with the given id.
pub open spec fn heading_of(flat: Seq<FlatLineView>, id: SectionId, i: int) -> bool {
    0 <= i < flat.len() && flat[i].is_heading && flat[i].section_id == id && forall|j: int|
        0 <= j < i ==> !(flat[j].is_heading && flat[j].section_id == id)
}

/// `len - 1`, or 0 for an empty buffer.
pub open spec fn last_index(len: nat) -> int {
    if len == 0 {
        0
    } else {
        len - 1
    }
}

#[derive(Debug)]
pub struct Pane {
    pub kind: PaneKind,
    pub title: String,
    pub root: Section,
    pub flat: Vec<FlatLine>,
    /// Cursor as an index into `flat`.
    pub cursor: usize,
    /// First visible flat line.
    pub top: usize,
    /// Diffs backing the sections, looked up by (area, path) at dispatch time.
    pub unstaged: Vec<FileDiff>,
    pub staged: Vec<FileDiff>,
    pub committed: Vec<FileDiff>,
    /// For a `Log` pane: the revision args that produced it, so `g` can re-run
    /// the same log.
    pub log_args: Option<Vec<String>>,
}

impl Pane {
    /// The flat lines are the tree's visible lines.
    pub open spec fn wf(&self) -> bool {
        flat_views(self.flat@) == flatten_spec(self.root@)
    }

    /// The diffs backing the sections of `area` (none for untracked files).
    pub open spec fn diffs_of(&self, area: DiffArea) -> Seq<FileDiff> {
        match area {
            DiffArea::Unstaged => self.unstaged@,
            DiffArea::Staged => self.staged@,
            DiffArea::Committed => self.committed@,
            DiffArea::Untracked => Seq::empty(),
        }
    }

    pub fn new(kind: PaneKind, title: String, root: Section) -> (r: Pane)
        ensures
            r.wf(),
            r.kind == kind,
            r.title == title,
            r.root@ == root@,
            r.cursor == 0,
            r.top == 0,
            r.unstaged@.len() == 0,
            r.staged@.len() == 0,
            r.committed@.len() == 0,
            r.log_args is None,
    {
        let flat = flatten(&root);
        Pane {
            kind,
            title,
            root,
            flat,
            cursor: 0,
            top: 0,
            unstaged: Vec::new(),
            staged: Vec::new(),
            committed: Vec::new(),
            log_args: None,
        }
    }

    pub fn line_count(&self) -> (r: usize)
        ensures
            r == self.flat@.len(),
    {
        self.flat.len()
    }

    /// The line under the cursor.
    pub fn current(&self) -> (r: Option<&FlatLine>)
        ensures
            match r {
                Some(f) => self.cursor < self.flat@.len() && *f == self.flat@[self.cursor as int],
                None => self.cursor >= self.flat@.len(),
            },
    {
        if self.cursor < self.flat.len() {
            Some(&self.flat[self.cursor])
        } else {
            None
        }
    }

    /// The section under the cursor (root when on header lines).
    pub fn section_at_cursor(&self) -> (r: Option<&Section>)
        ensures
            match r {
                Some(s) => self.cursor < self.flat@.len() && at_path_spec(
                    self.root,
                    self.flat@[self.cursor as int].path@,
                ) == Some(*s),
                None => self.cursor >= self.flat@.len() || at_path_spec(
                    self.root,
                    self.flat@[self.cursor as int].path@,
                ) is None,
            },
    {
        match self.current() {
            Some(f) => self.root.at_path(f.path.as_slice()),
            None => None,
        }
    }

    /// The value of the section under the cursor (`Root` when there is none).
    pub fn value_at_cursor(&self) -> (r: SectionValue)
        ensures
            r == (if self.cursor < self.flat@.len() {
                match at_path_spec(self.root, self.flat@[self.cursor as int].path@) {
                    Some(s) => s.value,
                    None => SectionValue::Root,
                }
            } else {
                SectionValue::Root
            }),
    {
        match self.section_at_cursor() {
            Some(s) => crate::ui::section::copy_value_pub(&s.value),
            None => SectionValue::Root,
        }
    }

    /// The diff of `path` in `area` (untracked files have none).
    pub fn find_file(&self, area: DiffArea, path: &str) -> (r: Option<&FileDiff>)
        ensures
            match r {
                Some(f) => area != DiffArea::Untracked && exists|i: int|
                    0 <= i < self.diffs_of(area).len() && *f == self.diffs_of(area)[i] && f.path@ == path@
                        && forall|j: int| 0 <= j < i ==> (#[trigger] self.diffs_of(area)[j]).path@ != path@,
                None => area == DiffArea::Untracked || forall|i: int|
                    0 <= i < self.diffs_of(area).len() ==> (#[trigger] self.diffs_of(area)[i]).path@ != path@,
            },
    {
        let list = match area {
            DiffArea::Unstaged => &self.unstaged,
            DiffArea::Staged => &self.staged,
            DiffArea::Committed => &self.committed,
            DiffArea::Untracked => {
                return None;
            },
        };
        let want = chars_of(path);
        let mut i: usize = 0;
        while i < list.len()
            invariant
                i <= list@.len(),
                list@ == self.diffs_of(area),
                area != DiffArea::Untracked,
                want@ == path@,
                forall|j: int| 0 <= j < i ==> (#[trigger] list@[j]).path@ != path@,
            decreases list.len() - i,
        {
            let have = chars_of(list[i].path.as_str());
            if crate::text::eq_chars(&have, &want) {
                return Some(&list[i]);
            }
            i += 1;
        }
        None
    }

    // ---- navigation ------------------------------------------------------

    /// Move by `delta` lines, within the buffer.
    pub fn move_cursor(&mut self, delta: isize)
        ensures
            final(self).cursor == ({
                let moved = old(self).cursor + delta;
                let sat = if moved < 0 {
                    0
                } else if moved > usize::MAX {
                    usize::MAX as int
                } else {
                    moved
                };
                let max = last_index(old(self).flat@.len());
                if sat < max {
                    sat
                } else {
                    max
                }
            }),
            final(self).flat == old(self).flat,
            final(self).root == old(self).root,
            final(self).top == old(self).top,
    {
        let max = if self.flat.len() > 0 { self.flat.len() - 1 } else { 0 };
        let moved: usize = if delta < 0 {
            let d = (0 - (delta as i128)) as usize;
            if self.cursor < d { 0 } else { self.cursor - d }
        } else {
            let d = delta as usize;
            if self.cursor > usize::MAX - d { usize::MAX } else { self.cursor + d }
        };
        self.cursor = if moved < max { moved } else { max };
    }

    pub fn goto_top(&mut self)
        ensures
            final(self).cursor == 0,
            final(self).flat == old(self).flat,
            final(self).root == old(self).root,
    {
        self.cursor = 0;
    }

    pub fn goto_bottom(&mut self)
        ensures
            final(self).cursor == last_index(old(self).flat@.len()),
            final(self).flat == old(self).flat,
            final(self).root == old(self).root,
    {
        self.cursor = if self.flat.len() > 0 { self.flat.len() - 1 } else { 0 };
    }

    /// Jump to the next visible section heading, if any.
    pub fn next_section(&mut self)
        ensures
            final(self).flat == old(self).flat,
            final(self).root == old(self).root,
            (exists|i: int| old(self).cursor < i < old(self).flat@.len() && #[trigger] old(self).flat@[i].is_heading)
                ==> ({
                let c = final(self).cursor as int;
                &&& old(self).cursor < c < old(self).flat@.len()
                &&& old(self).flat@[c].is_heading
                &&& forall|j: int| old(self).cursor < j < c ==> !(#[trigger] old(self).flat@[j]).is_heading
            }),
            !(exists|i: int| old(self).cursor < i < old(self).flat@.len() && #[trigger] old(self).flat@[i].is_heading)
                ==> final(self).cursor == old(self).cursor,
    {
        if let Some(i) = self.next_heading() {
            self.cursor = i;
        }
    }

    fn next_heading(&self) -> (r: Option<usize>)
        ensures
            match r {
                Some(c) => self.cursor < c < self.flat@.len() && self.flat@[c as int].is_heading && forall|j: int|
                    self.cursor < j < c ==> !(#[trigger] self.flat@[j]).is_heading,
                None => !(exists|i: int| self.cursor < i < self.flat@.len() && #[trigger] self.flat@[i].is_heading),
            },
    {
        let mut i = self.cursor;
        while i < self.flat.len()
            invariant
                self.cursor <= i,
                forall|j: int| self.cursor < j <= i && j < self.flat@.len() ==> !(#[trigger] self.flat@[j]).is_heading,
            decreases self.flat.len() - i,
        {
            if i + 1 < self.flat.len() && self.flat[i + 1].is_heading {
                return Some(i + 1);
            }
            i += 1;
        }
        None
    }

    fn prev_heading(&self) -> (r: Option<usize>)
        ensures
            match r {
                Some(c) => c < self.cursor && c < self.flat@.len() && self.flat@[c as int].is_heading && forall|j: int|
                    c < j < self.cursor && j < self.flat@.len() ==> !(#[trigger] self.flat@[j]).is_heading,
                None => !(exists|i: int| 0 <= i < self.cursor && i < self.flat@.len() && #[trigger] self.flat@[i].is_heading),
            },
    {
        let mut i = self.cursor;
        while i > 0
            invariant
                i <= self.cursor,
                forall|j: int| i <= j < self.cursor && j < self.flat@.len() ==> !(#[trigger] self.flat@[j]).is_heading,
            decreases i,
        {
            if i - 1 < self.flat.len() && self.flat[i - 1].is_heading {
                return Some(i - 1);
            }
            i -= 1;
        }
        None
    }

    /// Jump to the previous visible section heading, if any.
    pub fn prev_section(&mut self)
        ensures
            final(self).flat == old(self).flat,
            final(self).root == old(self).root,
            (exists|i: int| 0 <= i < old(self).cursor && i < old(self).flat@.len() && #[trigger] old(self).flat@[i].is_heading)
                ==> ({
                let c = final(self).cursor as int;
                &&& 0 <= c < old(self).cursor
                &&& c < old(self).flat@.len()
                &&& old(self).flat@[c].is_heading
                &&& forall|j: int| c < j < old(self).cursor && j < old(self).flat@.len() ==> !(#[trigger] old(self).flat@[j]).is_heading
            }),
            !(exists|i: int| 0 <= i < old(self).cursor && i < old(self).flat@.len() && #[trigger] old(self).flat@[i].is_heading)
                ==> final(self).cursor == old(self).cursor,
    {
        if let Some(i) = self.prev_heading() {
            self.cursor = i;
        }
    }
}


/// Where moving to the parent section puts the cursor (`c` before, `n`
/// after): the heading of the parent (or the own heading from a body
/// line), the top for a top-level body line, unchanged otherwise.
/// The scroll margin `follow` keeps: `scrolloff`, at most half the
/// viewport.
pub open spec fn scroll_margin(height: usize, scrolloff: usize) -> int {
    if scrolloff < (height - 1) / 2 {
        scrolloff as int
    } else {
        (height - 1) / 2
    }
}

pub open spec fn parent_spec(fv: Seq<FlatLineView>, c: usize, n: usize) -> bool {
    if c >= fv.len() || (fv[c as int].is_heading && fv[c as int].path.len() == 0) {
        n == c
    } else if parent_target(fv, c).len() == 0 {
        n == 0
    } else {
        lands_on_heading(fv, parent_target(fv, c), c, n)
    }
}

/// The path whose heading is the parent of line `c`.
pub open spec fn parent_target(fv: Seq<FlatLineView>, c: usize) -> Seq<usize> {
    if fv[c as int].is_heading {
        fv[c as int].path.drop_last()
    } else {
        fv[c as int].path
    }
}

/// `n` is the first heading at `p` when there is one, else `c`.
pub open spec fn lands_on_heading(fv: Seq<FlatLineView>, p: Seq<usize>, c: usize, n: usize) -> bool {
    if exists|i: int| #[trigger] heading_at(fv, p, i) {
        heading_at(fv, p, n as int)
    } else {
        n == c
    }
}

/// `i` is the first line that is a body line of section `id` at `body_idx`.
pub open spec fn body_line_of(flat: Seq<FlatLineView>, id: SectionId, body_idx: Option<usize>, i: int) -> bool {
    0 <= i < flat.len() && !flat[i].is_heading && flat[i].section_id == id && flat[i].body_idx == body_idx
        && forall|j: int|
        0 <= j < i ==> !(!flat[j].is_heading && flat[j].section_id == id && flat[j].body_idx == body_idx)
}

/// `i` is the first heading line with path `p`.
pub open spec fn heading_at(flat: Seq<FlatLineView>, p: Seq<usize>, i: int) -> bool {
    0 <= i < flat.len() && flat[i].is_heading && flat[i].path == p && forall|j: int|
        0 <= j < i ==> !(flat[j].is_heading && flat[j].path == p)
}

/// The ids of the sections on the way from `path` up to the root (each
/// prefix of the path that leads to a section), deepest first.
pub open spec fn id_chain(root: Section, path: Seq<usize>) -> Seq<SectionId>
    decreases path.len(),
{
    (match at_path_spec(root, path) {
        Some(s) => seq![s.id],
        None => Seq::empty(),
    }) + if path.len() == 0 {
        Seq::empty()
    } else {
        id_chain(root, path.drop_last())
    }
}

/// Where the cursor lands after a refresh: for each id of the chain in
/// turn, the same body line (for the cursor's own section, when it was on
/// a body line), else the section's heading; failing all, the old index
/// clamped to the buffer.
pub open spec fn restore_spec(
    flat: Seq<FlatLineView>,
    chain: Seq<SectionId>,
    n: int,
    was_heading: bool,
    body_idx: Option<usize>,
    flat_idx: usize,
) -> int
    decreases chain.len() - n,
{
    if n < 0 || n >= chain.len() {
        if flat_idx < last_index(flat.len()) {
            flat_idx as int
        } else {
            last_index(flat.len())
        }
    } else if n == 0 && !was_heading && exists|i: int| body_line_of(flat, chain[n], body_idx, i) {
        choose|i: int| body_line_of(flat, chain[n], body_idx, i)
    } else if exists|i: int| heading_of(flat, chain[n], i) {
        choose|i: int| heading_of(flat, chain[n], i)
    } else {
        restore_spec(flat, chain, n + 1, was_heading, body_idx, flat_idx)
    }
}

/// Section `id` still has a heading in `flat`.
pub open spec fn survives(flat: Seq<FlatLineView>, id: SectionId) -> bool {
    exists|i: int| heading_of(flat, id, i)
}

/// Body line `body_idx` of section `id` is still in `flat`.
pub open spec fn body_survives(flat: Seq<FlatLineView>, id: SectionId, body_idx: Option<usize>) -> bool {
    exists|i: int| body_line_of(flat, id, body_idx, i)
}

/// Where a refresh puts the cursor: always on a line of the new buffer (0
/// for an empty one); on the same body line of the cursor's section when
/// that line survives; else at the heading of the first surviving section
/// of the chain (the cursor's section, then its ancestors); only when none
/// survives, at the old index clamped to the buffer.
pub proof fn law_refresh_cursor(
    flat: Seq<FlatLineView>,
    chain: Seq<SectionId>,
    n: int,
    was_heading: bool,
    body_idx: Option<usize>,
    flat_idx: usize,
)
    requires
        0 <= n,
    ensures
        ({
            let r = restore_spec(flat, chain, n, was_heading, body_idx, flat_idx);
            let found_body = n == 0 && n < chain.len() && !was_heading && body_survives(flat, chain[n], body_idx);
            &&& 0 <= r <= last_index(flat.len())
            &&& found_body ==> body_line_of(flat, chain[n], body_idx, r)
            &&& !found_body && (forall|k: int| n <= k < chain.len() ==> !#[trigger] survives(flat, chain[k])) ==> r == (
                if flat_idx < last_index(flat.len()) {
                    flat_idx as int
                } else {
                    last_index(flat.len())
                })
            &&& forall|k: int|
                n <= k < chain.len() && !found_body && #[trigger] survives(flat, chain[k]) && (forall|j: int|
                    n <= j < k ==> !#[trigger] survives(flat, chain[j])) ==> heading_of(flat, chain[k], r)
        }),
    decreases chain.len() - n,
{
    let r = restore_spec(flat, chain, n, was_heading, body_idx, flat_idx);
    if n < chain.len() {
        law_refresh_cursor(flat, chain, n + 1, was_heading, body_idx, flat_idx);
        if n == 0 && !was_heading && body_survives(flat, chain[n], body_idx) {
            assert(body_line_of(flat, chain[n], body_idx, r));
        } else if survives(flat, chain[n]) {
            assert(heading_of(flat, chain[n], r));
            assert forall|k: int|
                n <= k < chain.len() && #[trigger] survives(flat, chain[k]) && (forall|j: int|
                    n <= j < k ==> !#[trigger] survives(flat, chain[j])) implies heading_of(flat, chain[k], r) by {
                if k > n {
                    assert(!survives(flat, chain[n]));
                }
            }
        } else {
            assert(r == restore_spec(flat, chain, n + 1, was_heading, body_idx, flat_idx));
            assert forall|k: int|
                n <= k < chain.len() && #[trigger] survives(flat, chain[k]) && (forall|j: int|
                    n <= j < k ==> !#[trigger] survives(flat, chain[j])) implies heading_of(flat, chain[k], r) by {
                if k > n {
                    assert(forall|j: int| n + 1 <= j < k ==> !#[trigger] survives(flat, chain[j]));
                }
            }
        }
    }
}

/// The cursor after replacing the tree of `o`, whose flat lines are then
/// `flat`.
pub open spec fn cursor_after_refresh(o: &Pane, flat: Seq<FlatLineView>) -> int {
    if o.cursor < o.flat@.len() {
        let cur = o.flat@[o.cursor as int];
        restore_spec(flat, id_chain(o.root, cur.path@), 0, cur.is_heading, cur.body_idx, o.cursor)
    } else {
        restore_spec(flat, Seq::empty(), 0, false, None, 0)
    }
}

fn first_body_line(flat: &Vec<FlatLine>, id: SectionId, body_idx: Option<usize>) -> (r: Option<usize>)
    ensures
        match r {
            Some(i) => body_line_of(flat_views(flat@), id, body_idx, i as int),
            None => !exists|i: int| body_line_of(flat_views(flat@), id, body_idx, i),
        },
{
    let ghost fv = flat_views(flat@);
    let mut i: usize = 0;
    while i < flat.len()
        invariant
            i <= flat@.len(),
            fv == flat_views(flat@),
            forall|j: int| 0 <= j < i ==> !(!(#[trigger] fv[j]).is_heading && fv[j].section_id == id && fv[j].body_idx == body_idx),
        decreases flat.len() - i,
    {
        let f = &flat[i];
        assert(fv[i as int] == f@);
        if !f.is_heading && f.section_id == id && f.body_idx == body_idx {
            assert(body_line_of(fv, id, body_idx, i as int));
            return Some(i);
        }
        i += 1;
    }
    proof {
        if exists|k: int| body_line_of(fv, id, body_idx, k) {
            let k = choose|k: int| body_line_of(fv, id, body_idx, k);
            assert(!(!fv[k].is_heading && fv[k].section_id == id && fv[k].body_idx == body_idx));
        }
    }
    None
}

fn first_heading(flat: &Vec<FlatLine>, id: SectionId) -> (r: Option<usize>)
    ensures
        match r {
            Some(i) => heading_of(flat_views(flat@), id, i as int),
            None => !exists|i: int| heading_of(flat_views(flat@), id, i),
        },
{
    let ghost fv = flat_views(flat@);
    let mut i: usize = 0;
    while i < flat.len()
        invariant
            i <= flat@.len(),
            fv == flat_views(flat@),
            forall|j: int| 0 <= j < i ==> !((#[trigger] fv[j]).is_heading && fv[j].section_id == id),
        decreases flat.len() - i,
    {
        let f = &flat[i];
        assert(fv[i as int] == f@);
        if f.is_heading && f.section_id == id {
            assert(heading_of(fv, id, i as int));
            return Some(i);
        }
        i += 1;
    }
    proof {
        if exists|k: int| heading_of(fv, id, k) {
            let k = choose|k: int| heading_of(fv, id, k);
            assert(!(fv[k].is_heading && fv[k].section_id == id));
        }
    }
    None
}

fn paths_equal(a: &Vec<usize>, b: &Vec<usize>) -> (r: bool)
    ensures
        r == (a@ == b@),
{
    if a.len() != b.len() {
        return false;
    }
    let mut i: usize = 0;
    while i < a.len()
        invariant
            a@.len() == b@.len(),
            i <= a@.len(),
            forall|j: int| 0 <= j < i ==> a@[j] == b@[j],
        decreases a.len() - i,
    {
        if a[i] != b[i] {
            return false;
        }
        i += 1;
    }
    assert(a@ =~= b@);
    true
}

fn first_heading_at(flat: &Vec<FlatLine>, p: &Vec<usize>) -> (r: Option<usize>)
    ensures
        match r {
            Some(i) => heading_at(flat_views(flat@), p@, i as int),
            None => !exists|i: int| heading_at(flat_views(flat@), p@, i),
        },
{
    let ghost fv = flat_views(flat@);
    let mut i: usize = 0;
    while i < flat.len()
        invariant
            i <= flat@.len(),
            fv == flat_views(flat@),
            forall|j: int| 0 <= j < i ==> !((#[trigger] fv[j]).is_heading && fv[j].path == p@),
        decreases flat.len() - i,
    {
        let f = &flat[i];
        assert(fv[i as int] == f@);
        if f.is_heading && paths_equal(&f.path, p) {
            assert(heading_at(fv, p@, i as int));
            return Some(i);
        }
        i += 1;
    }
    proof {
        if exists|k: int| heading_at(fv, p@, k) {
            let k = choose|k: int| heading_at(fv, p@, k);
            assert(!(fv[k].is_heading && fv[k].path == p@));
        }
    }
    None
}

fn copy_usizes(p: &Vec<usize>, n: usize) -> (r: Vec<usize>)
    requires
        n <= p@.len(),
    ensures
        r@ == p@.take(n as int),
{
    let mut r = Vec::new();
    let mut i: usize = 0;
    while i < n
        invariant
            i <= n,
            n <= p@.len(),
            r@ == p@.take(i as int),
        decreases n - i,
    {
        r.push(p[i]);
        assert(r@ =~= p@.take(i + 1));
        i += 1;
    }
    r
}

impl Pane {
    /// Jump to the heading of the parent section (or the own heading when
    /// inside a section's body); to the top from a top-level section's body.
    pub fn parent_section(&mut self)
        ensures
            final(self).flat == old(self).flat,
            final(self).root == old(self).root,
            parent_spec(flat_views(old(self).flat@), old(self).cursor, final(self).cursor),
    {
        let ghost fv = flat_views(self.flat@);
        if self.cursor >= self.flat.len() {
            return;
        }
        let cur = &self.flat[self.cursor];
        assert(fv[self.cursor as int] == cur@);
        let target = if cur.is_heading {
            if cur.path.len() == 0 {
                return;
            }
            copy_usizes(&cur.path, cur.path.len() - 1)
        } else {
            copy_usizes(&cur.path, cur.path.len())
        };
        let ghost st = if fv[self.cursor as int].is_heading {
            fv[self.cursor as int].path.drop_last()
        } else {
            fv[self.cursor as int].path
        };
        proof {
            if cur.is_heading {
                assert(target@ =~= cur.path@.drop_last());
            } else {
                assert(target@ =~= cur.path@);
            }
            assert(target@ == st);
        }
        if target.len() == 0 {
            self.cursor = 0;
            return;
        }
        match first_heading_at(&self.flat, &target) {
            Some(i) => {
                let ghost c0 = self.cursor;
                assert(heading_at(fv, st, i as int));
                assert(exists|k: int| heading_at(fv, st, k));
                assert(st.len() > 0);
                assert(c0 < fv.len());
                assert(!(fv[c0 as int].is_heading && fv[c0 as int].path.len() == 0));
                assert(st == parent_target(fv, c0));
                assert(lands_on_heading(fv, st, c0, i));
                assert(parent_spec(fv, c0, i));
                self.cursor = i;
            },
            None => {
                assert(!exists|k: int| heading_at(fv, st, k));
                assert(st == parent_target(fv, self.cursor));
                assert(lands_on_heading(fv, st, self.cursor, self.cursor));
            },
        }
    }

    /// Flip the fold state of the section under the cursor (when it has
    /// something to fold) and keep the cursor on its heading.
    pub fn toggle_at_cursor(&mut self)
        requires
            old(self).wf(),
        ensures
            final(self).wf(),
            ({
                let o = old(self);
                if o.cursor < o.flat@.len() && (at_path_spec(o.root, o.flat@[o.cursor as int].path@) matches Some(
                    s,
                ) && (s.children@.len() > 0 || s.body@.len() > 0)) {
                    let s = at_path_spec(o.root, o.flat@[o.cursor as int].path@)->0;
                    &&& final(self).root@ == toggled_at(o.root@, o.flat@[o.cursor as int].path@)
                    &&& if exists|i: int| heading_of(flat_views(final(self).flat@), s.id, i) {
                        heading_of(flat_views(final(self).flat@), s.id, final(self).cursor as int)
                    } else {
                        final(self).cursor == (if o.cursor < last_index(final(self).flat@.len()) {
                            o.cursor as int
                        } else {
                            last_index(final(self).flat@.len())
                        })
                    }
                } else {
                    final(self).root@ == o.root@ && final(self).flat@ == o.flat@ && final(self).cursor == o.cursor
                }
            }),
    {
        if self.cursor >= self.flat.len() {
            return;
        }
        let id;
        {
            let cur = &self.flat[self.cursor];
            match self.root.at_path(cur.path.as_slice()) {
                Some(sec) => {
                    if !sec.is_foldable() {
                        return;
                    }
                    id = sec.id;
                },
                None => {
                    return;
                },
            }
        }
        let ghost o = self.root;
        let ghost path = self.flat@[self.cursor as int].path@;
        let ghost mut written = o;
        match self.root.at_path_mut(self.flat[self.cursor].path.as_slice()) {
            Some(sec) => {
                sec.collapsed = !sec.collapsed;
                proof {
                    written = *sec;
                }
            },
            None => {},
        }
        proof {
            lemma_at_path_from(o, path);
            lemma_replaced_toggled(o, self.root, path, written);
        }
        self.flat = flatten(&self.root);
        match first_heading(&self.flat, id) {
            Some(i) => {
                self.cursor = i;
            },
            None => {
                let max = if self.flat.len() > 0 { self.flat.len() - 1 } else { 0 };
                if self.cursor >= max {
                    self.cursor = max;
                }
            },
        }
    }

    /// Indices of the lines containing `query`, ascending. Smart case: an
    /// all-lowercase query matches case-insensitively, any uppercase char
    /// makes it case-sensitive.
    pub fn find_matches(&self, query: &str) -> (r: Vec<usize>)
        ensures
            r@ == (if query@.len() == 0 {
                Seq::<usize>::empty()
            } else {
                matches_spec(flat_views(self.flat@), query@)
            }),
    {
        let q = chars_of(query);
        if q.len() == 0 {
            return Vec::new();
        }
        let sens = has_uppercase(&q);
        let needle = if sens {
            q
        } else {
            let l = to_lowercase(query);
            chars_of(l.as_str())
        };
        let ghost fv = flat_views(self.flat@);
        let mut out: Vec<usize> = Vec::new();
        let mut i: usize = 0;
        assert(fv.take(0) =~= Seq::<FlatLineView>::empty());
        while i < self.flat.len()
            invariant
                i <= self.flat@.len(),
                fv == flat_views(self.flat@),
                needle@ == (if sens {
                    query@
                } else {
                    lowercase(query@)
                }),
                sens == sensitive(query@),
                out@ == matches_spec(fv.take(i as int), query@),
            decreases self.flat.len() - i,
        {
            let text = self.flat[i].line.text();
            let hay = if sens {
                chars_of(text.as_str())
            } else {
                let l = to_lowercase(text.as_str());
                chars_of(l.as_str())
            };
            let hit = find_exec(&hay, &needle).is_some();
            proof {
                assert(fv.take(i + 1).drop_last() =~= fv.take(i as int));
                assert(fv.take(i + 1).last() == self.flat@[i as int]@);
            }
            if hit {
                out.push(i);
            }
            i += 1;
        }
        assert(fv.take(i as int) =~= fv);
        out
    }

    /// Clamp the viewport so the cursor stays visible with a `scrolloff`
    /// margin.
    pub fn follow(&mut self, height: usize, scrolloff: usize)
        ensures
            final(self).cursor == old(self).cursor,
            final(self).flat == old(self).flat,
            final(self).root == old(self).root,
            height == 0 ==> final(self).top == old(self).top,
            // The cursor's line is on screen, with `margin` lines above it
            // and below it wherever the buffer has them.
            height > 0 && old(self).cursor < old(self).flat@.len() ==> final(self).top <= old(self).cursor
                < final(self).top + height,
            height > 0 && old(self).cursor >= scroll_margin(height, scrolloff) ==> final(self).top
                + scroll_margin(height, scrolloff) <= old(self).cursor,
            height > 0 && old(self).cursor + scroll_margin(height, scrolloff) < old(self).flat@.len()
                ==> old(self).cursor + scroll_margin(height, scrolloff) < final(self).top + height,
            height > 0 ==> final(self).top == ({
                let o = old(self);
                let margin = if scrolloff < (height - 1) / 2 {
                    scrolloff as int
                } else {
                    (height - 1) / 2
                };
                let up = if o.cursor + margin + 1 > usize::MAX {
                    usize::MAX as int
                } else {
                    o.cursor + margin + 1
                };
                let low = if up > height {
                    up - height
                } else {
                    0
                };
                let high = if o.cursor > margin {
                    o.cursor - margin
                } else {
                    0
                };
                let lo = if low < high {
                    low
                } else {
                    high
                };
                let clamped = if o.top < lo {
                    lo
                } else if o.top > high {
                    high
                } else {
                    o.top as int
                };
                let len = o.flat@.len();
                let cap = len - (if height < len {
                    height as int
                } else {
                    len as int
                });
                if clamped < cap {
                    clamped
                } else {
                    cap
                }
            }),
    {
        if height == 0 {
            return;
        }
        let half = (height - 1) / 2;
        let margin = if scrolloff < half { scrolloff } else { half };
        let up = if self.cursor > usize::MAX - (margin + 1) { usize::MAX } else { self.cursor + margin + 1 };
        let low = if up > height { up - height } else { 0 };
        let high = if self.cursor > margin { self.cursor - margin } else { 0 };
        let lo = if low < high { low } else { high };
        let clamped = if self.top < lo { lo } else if self.top > high { high } else { self.top };
        let len = self.flat.len();
        let cap = len - (if height < len { height } else { len });
        self.top = if clamped < cap { clamped } else { cap };
    }

    /// Replace the tree, preserving fold state and cursor position by
    /// section identity (falling back to ancestors, then the raw line index).
    pub fn replace_tree(&mut self, root: Section)
        ensures
            final(self).wf(),
            final(self).root@ == apply_states(root@, states_of(old(self).root@)),
            final(self).cursor == cursor_after_refresh(&*old(self), flat_views(final(self).flat@)),
            final(self).kind == old(self).kind,
            final(self).top == old(self).top,
    {
        let (chain, was_heading, body_idx, flat_idx) = self.memoize_cursor();
        let mut root = root;
        root.inherit_collapse(&self.root);
        self.root = root;
        self.flat = flatten(&self.root);
        self.restore_cursor(&chain, was_heading, body_idx, flat_idx);
    }

    fn memoize_cursor(&self) -> (r: (Vec<SectionId>, bool, Option<usize>, usize))
        ensures
            self.cursor < self.flat@.len() ==> ({
                let cur = self.flat@[self.cursor as int];
                r.0@ == id_chain(self.root, cur.path@) && r.1 == cur.is_heading && r.2 == cur.body_idx && r.3
                    == self.cursor
            }),
            self.cursor >= self.flat@.len() ==> r.0@.len() == 0 && !r.1 && r.2 is None && r.3 == 0,
    {
        if self.cursor >= self.flat.len() {
            return (Vec::new(), false, None, 0);
        }
        let cur = &self.flat[self.cursor];
        let mut chain: Vec<SectionId> = Vec::new();
        let plen = cur.path.len();
        let mut k = plen;
        assert(cur.path@.take(plen as int) =~= cur.path@);
        let ghost full = id_chain(self.root, cur.path@);
        // `k` prefixes are left: those of length `k`, `k - 1`, ..., `0`,
        // counted as `k + 1` down to zero by `left`.
        let mut left: usize = 1;
        assert(chain@ + id_chain(self.root, cur.path@.take(k as int)) == full);
        while left > 0
            invariant
                k <= plen,
                plen == cur.path@.len(),
                left <= 1,
                full == id_chain(self.root, cur.path@),
                left == 1 ==> chain@ + id_chain(self.root, cur.path@.take(k as int)) == full,
                left == 0 ==> chain@ == full,
            decreases k, left,
        {
            let p = copy_usizes(&cur.path, k);
            let ghost before = chain@;
            match self.root.at_path(p.as_slice()) {
                Some(sec) => {
                    chain.push(sec.id);
                },
                None => {},
            }
            if k == 0 {
                assert(chain@ =~= full);
                left = 0;
            } else {
                proof {
                    assert(cur.path@.take(k as int).drop_last() =~= cur.path@.take(k - 1));
                    assert(chain@ + id_chain(self.root, cur.path@.take(k - 1)) =~= full);
                }
                k -= 1;
            }
        }
        (chain, cur.is_heading, cur.body_idx, self.cursor)
    }

    fn restore_cursor(&mut self, chain: &Vec<SectionId>, was_heading: bool, body_idx: Option<usize>, flat_idx: usize)
        ensures
            final(self).cursor == restore_spec(flat_views(old(self).flat@), chain@, 0, was_heading, body_idx, flat_idx),
            final(self).flat == old(self).flat,
            final(self).root == old(self).root,
            final(self).kind == old(self).kind,
            final(self).top == old(self).top,
    {
        self.cursor = restored_index(&self.flat, chain, was_heading, body_idx, flat_idx);
    }
}

fn restored_index(flat: &Vec<FlatLine>, chain: &Vec<SectionId>, was_heading: bool, body_idx: Option<usize>, flat_idx: usize) -> (r: usize)
    ensures
        r == restore_spec(flat_views(flat@), chain@, 0, was_heading, body_idx, flat_idx),
{
    let ghost fv = flat_views(flat@);
    let mut n: usize = 0;
    while n < chain.len()
        invariant
            n <= chain@.len(),
            fv == flat_views(flat@),
            restore_spec(fv, chain@, 0, was_heading, body_idx, flat_idx) == restore_spec(
                fv,
                chain@,
                n as int,
                was_heading,
                body_idx,
                flat_idx,
            ),
        decreases chain.len() - n,
    {
        let id = chain[n];
        if n == 0 && !was_heading {
            match first_body_line(flat, id, body_idx) {
                Some(i) => {
                    proof {
                        let k = choose|k: int| body_line_of(fv, chain@[n as int], body_idx, k);
                        assert(k == i as int) by {
                            if k < i {
                                assert(!(!fv[k].is_heading && fv[k].section_id == id && fv[k].body_idx == body_idx));
                            }
                            if k > i {
                                assert(!(!fv[i as int].is_heading && fv[i as int].section_id == id && fv[i as int].body_idx
                                    == body_idx));
                            }
                        }
                    }
                    return i;
                },
                None => {},
            }
        }
        match first_heading(flat, id) {
            Some(i) => {
                proof {
                    let k = choose|k: int| heading_of(fv, chain@[n as int], k);
                    assert(k == i as int) by {
                        if k < i {
                            assert(!(fv[k].is_heading && fv[k].section_id == id));
                        }
                        if k > i {
                            assert(!(fv[i as int].is_heading && fv[i as int].section_id == id));
                        }
                    }
                }
                return i;
            },
            None => {},
        }
        n += 1;
    }
    let max = if flat.len() > 0 { flat.len() - 1 } else { 0 };
    if flat_idx < max { flat_idx } else { max }
}


// ---------------------------------------------------------------------------
// Match highlighting
// ---------------------------------------------------------------------------

/// A char as the smart-case comparison sees it.
pub open spec fn norm(c: char, sens: bool) -> char {
    if sens {
        c
    } else {
        lower_first(c)
    }
}

pub open spec fn normed(s: Seq<char>, sens: bool) -> Seq<char> {
    s.map_values(|c: char| norm(c, sens))
}

/// The mask after scanning from `i`: each non-overlapping match, left to
/// right, marks its chars.
pub open spec fn marks(t: Seq<char>, q: Seq<char>, i: int, m: Seq<bool>) -> Seq<bool>
    decreases t.len() - i,
{
    if q.len() == 0 || i < 0 || i + q.len() > t.len() {
        m
    } else if t.subrange(i, i + q.len()) == q {
        marks(
            t,
            q,
            i + q.len(),
            Seq::new(m.len(), |j: int| if i <= j < i + q.len() { true } else { m[j] }),
        )
    } else {
        marks(t, q, i + 1, m)
    }
}

/// Whether a match starts at or after `i` (in the left-to-right scan).
pub open spec fn any_match(t: Seq<char>, q: Seq<char>, i: int) -> bool
    decreases t.len() - i,
{
    if q.len() == 0 || i < 0 || i + q.len() > t.len() {
        false
    } else if t.subrange(i, i + q.len()) == q {
        true
    } else {
        any_match(t, q, i + 1)
    }
}

/// The char mask of the query's matches in `text` (smart case,
/// non-overlapping), `None` when nothing matches.
pub open spec fn match_mask_spec(text: Seq<char>, query: Seq<char>) -> Option<Seq<bool>> {
    let sens = sensitive(query);
    let t = normed(text, sens);
    let q = normed(query, sens);
    if query.len() == 0 || t.len() < q.len() || !any_match(t, q, 0) {
        None
    } else {
        Some(marks(t, q, 0, Seq::new(t.len(), |j: int| false)))
    }
}

fn normed_chars(v: &Vec<char>, sens: bool) -> (r: Vec<char>)
    ensures
        r@ == normed(v@, sens),
{
    let mut out: Vec<char> = Vec::new();
    let mut i: usize = 0;
    while i < v.len()
        invariant
            i <= v@.len(),
            out@ == normed(v@, sens).take(i as int),
        decreases v.len() - i,
    {
        let c = if sens { v[i] } else { char_lower_first(v[i]) };
        out.push(c);
        assert(out@ =~= normed(v@, sens).take(i + 1));
        i += 1;
    }
    assert(normed(v@, sens).take(i as int) =~= normed(v@, sens));
    out
}

/// Character mask of query matches in `text` (smart-case, non-overlapping).
/// `None` when nothing matches.
pub fn match_mask(text: &str, query: &str) -> (r: Option<Vec<bool>>)
    ensures
        match r {
            Some(m) => match_mask_spec(text@, query@) == Some(m@),
            None => match_mask_spec(text@, query@) is None,
        },
{
    let qv = chars_of(query);
    if qv.len() == 0 {
        return None;
    }
    let sens = has_uppercase(&qv);
    let tv = chars_of(text);
    let t = normed_chars(&tv, sens);
    let q = normed_chars(&qv, sens);
    if t.len() < q.len() {
        return None;
    }
    let mut mask: Vec<bool> = Vec::new();
    let mut k: usize = 0;
    while k < t.len()
        invariant
            k <= t@.len(),
            mask@ == Seq::new(k as nat, |j: int| false),
        decreases t.len() - k,
    {
        mask.push(false);
        assert(mask@ =~= Seq::new((k + 1) as nat, |j: int| false));
        k += 1;
    }
    let ghost m0 = mask@;
    let n = t.len();
    let qn = q.len();
    let mut found = false;
    let mut i: usize = 0;
    while i <= n - qn
        invariant
            n == t@.len(),
            qn == q@.len(),
            qn > 0,
            qn <= n,
            i <= n,
            mask@.len() == n,
            marks(t@, q@, i as int, mask@) == marks(t@, q@, 0, m0),
            (found || any_match(t@, q@, i as int)) == any_match(t@, q@, 0),
        decreases n - i,
    {
        let mut same = true;
        let mut j: usize = 0;
        while j < qn
            invariant
                j <= qn,
                i + qn <= n,
                n == t@.len(),
                qn == q@.len(),
                same == (forall|x: int| 0 <= x < j ==> t@[i + x] == q@[x]),
            decreases qn - j,
        {
            if t[i + j] != q[j] {
                same = false;
            }
            j += 1;
        }
        proof {
            if same {
                assert(t@.subrange(i as int, i + qn) =~= q@);
            } else {
                let x = choose|x: int| 0 <= x < qn && t@[i + x] != q@[x];
                assert(t@.subrange(i as int, i + qn)[x] != q@[x]);
            }
        }
        if same {
            let ghost before = mask@;
            let mut x: usize = i;
            while x < i + qn
                invariant
                    i <= x <= i + qn,
                    i + qn <= n,
                    mask@.len() == n,
                    forall|y: int| 0 <= y < n ==> mask@[y] == (if i <= y < x { true } else { before[y] }),
                decreases i + qn - x,
            {
                mask.set(x, true);
                x += 1;
            }
            assert(mask@ =~= Seq::new(before.len(), |y: int| if i <= y < i + qn { true } else { before[y] }));
            found = true;
            i = i + qn;
        } else {
            i += 1;
        }
    }
    if found {
        Some(mask)
    } else {
        None
    }
}


/// `hl` layered over `base`: its colors where it has them, the modifiers of
/// both.
pub open spec fn patch(base: Style, hl: Style) -> Style {
    Style {
        fg: if hl.fg is Some { hl.fg } else { base.fg },
        bg: if hl.bg is Some { hl.bg } else { base.bg },
        bold: base.bold || hl.bold,
        dim: base.dim || hl.dim,
        reversed: base.reversed || hl.reversed,
        crossed_out: base.crossed_out || hl.crossed_out,
    }
}

pub fn patch_style(base: Style, hl: Style) -> (r: Style)
    ensures
        r == patch(base, hl),
{
    Style {
        fg: if hl.fg.is_some() { hl.fg } else { base.fg },
        bg: if hl.bg.is_some() { hl.bg } else { base.bg },
        bold: base.bold || hl.bold,
        dim: base.dim || hl.dim,
        reversed: base.reversed || hl.reversed,
        crossed_out: base.crossed_out || hl.crossed_out,
    }
}

/// Whether the char at `i` is marked (chars past the mask are not).
pub open spec fn marked(mask: Seq<bool>, i: int) -> bool {
    0 <= i < mask.len() && mask[i]
}

/// The chars of `text` grouped into runs of equal marking, the marks
/// starting at `off` in `mask`.
pub open spec fn runs(text: Seq<char>, mask: Seq<bool>, off: int) -> Seq<(Seq<char>, bool)>
    decreases text.len(),
{
    if text.len() == 0 {
        Seq::empty()
    } else {
        let r = runs(text.drop_last(), mask, off);
        let m = marked(mask, off + text.len() - 1);
        if r.len() > 0 && r.last().1 == m {
            r.drop_last().push((r.last().0.push(text.last()), m))
        } else {
            r.push((seq![text.last()], m))
        }
    }
}

pub open spec fn styled_runs(rs: Seq<(Seq<char>, bool)>, base: Style, hl: Style) -> LineView {
    rs.map_values(|r: (Seq<char>, bool)| (r.0, if r.1 { patch(base, hl) } else { base }))
}

/// The spans of a line split at the mask's boundaries, matched pieces
/// restyled with `hl`; `off` is where the first span starts in the mask.
pub open spec fn split_spans(spans: LineView, mask: Seq<bool>, hl: Style) -> LineView
    decreases spans.len(),
{
    if spans.len() == 0 {
        Seq::empty()
    } else {
        let last = spans.last();
        split_spans(spans.drop_last(), mask, hl) + styled_runs(
            runs(last.0, mask, line_text(spans.drop_last()).len() as int),
            last.1,
            hl,
        )
    }
}

/// A line with the query's matches restyled with `hl`, split at the match
/// boundaries so the surrounding styling is kept; unchanged without a
/// match.
pub open spec fn highlight_query_spec(line: LineView, query: Seq<char>, hl: Style) -> LineView {
    match match_mask_spec(line_text(line), query) {
        None => line,
        Some(mask) => split_spans(line, mask, hl),
    }
}

fn span_runs(text: &Vec<char>, mask: &Vec<bool>, off: usize) -> (r: Vec<(Vec<char>, bool)>)
    requires
        off + text@.len() <= usize::MAX,
    ensures
        r@.map_values(|x: (Vec<char>, bool)| (x.0@, x.1)) == runs(text@, mask@, off as int),
{
    let mut out: Vec<(Vec<char>, bool)> = Vec::new();
    let mut j: usize = 0;
    assert(text@.take(0) =~= Seq::<char>::empty());
    assert(out@.map_values(|x: (Vec<char>, bool)| (x.0@, x.1)) =~= Seq::<(Seq<char>, bool)>::empty());
    while j < text.len()
        invariant
            j <= text@.len(),
            off + text@.len() <= usize::MAX,
            out@.map_values(|x: (Vec<char>, bool)| (x.0@, x.1)) == runs(text@.take(j as int), mask@, off as int),
        decreases text.len() - j,
    {
        let m = off + j < mask.len() && mask[off + j];
        let c = text[j];
        let ghost before = out@.map_values(|x: (Vec<char>, bool)| (x.0@, x.1));
        proof {
            assert(text@.take(j + 1).drop_last() =~= text@.take(j as int));
            assert(text@.take(j + 1).last() == c);
            assert(m == marked(mask@, off + (j + 1) - 1));
        }
        let n = out.len();
        if n > 0 && out[n - 1].1 == m {
            let (mut seg, mm) = out.pop().unwrap();
            let ghost sv = seg@;
            seg.push(c);
            out.push((seg, mm));
            proof {
                assert(before.last() == (sv, mm));
                assert(out@.map_values(|x: (Vec<char>, bool)| (x.0@, x.1)) =~= before.drop_last().push(
                    (sv.push(c), m),
                ));
            }
        } else {
            let mut seg: Vec<char> = Vec::new();
            seg.push(c);
            out.push((seg, m));
            proof {
                assert(out@.map_values(|x: (Vec<char>, bool)| (x.0@, x.1)) =~= before.push((seq![c], m)));
            }
        }
        j += 1;
    }
    assert(text@.take(j as int) =~= text@);
    out
}

/// Restyle the matched substrings of a line, splitting spans at match
/// boundaries so the surrounding styling (diff colors etc.) is preserved.
pub fn highlight_query(line: Line, query: &str, hl: Style) -> (r: Line)
    ensures
        r@ == highlight_query_spec(line@, query@, hl),
{
    let text = line.text();
    let mask = match match_mask(text.as_str(), query) {
        Some(m) => m,
        None => {
            return line;
        },
    };
    let ghost mv = mask@;
    proof {
        let sens = sensitive(query@);
        lemma_marks_len(normed(text@, sens), normed(query@, sens), 0, Seq::new(normed(text@, sens).len(), |j: int| false));
    }
    let mlen = mask.len();
    let mut out: Vec<Span> = Vec::new();
    let mut off: usize = 0;
    let mut i: usize = 0;
    let ghost lv = line@;
    assert(lv.take(0) =~= Seq::<(Seq<char>, Style)>::empty());
    assert(out@.map_values(|s: Span| (s.text@, s.style)) =~= Seq::<(Seq<char>, Style)>::empty());
    while i < line.spans.len()
        invariant
            i <= line.spans@.len(),
            lv == line@,
            mv == mask@,
            off == line_text(lv.take(i as int)).len(),
            line_text(lv).len() == text@.len(),
            mlen == mask@.len(),
            mlen == text@.len(),
            out@.map_values(|s: Span| (s.text@, s.style)) == split_spans(lv.take(i as int), mv, hl),
        decreases line.spans.len() - i,
    {
        let sp = &line.spans[i];
        let cs = chars_of(sp.text.as_str());
        proof {
            lemma_line_text_prefix(lv, i as int + 1);
            assert(lv.take(i + 1).drop_last() =~= lv.take(i as int));
            assert(lv.take(i + 1).last() == (sp.text@, sp.style));
        }
        let rs = span_runs(&cs, &mask, off);
        let patched = patch_style(sp.style, hl);
        let ghost before = out@.map_values(|s: Span| (s.text@, s.style));
        let ghost rv = rs@.map_values(|x: (Vec<char>, bool)| (x.0@, x.1));
        let mut k: usize = 0;
        assert(styled_runs(rv.take(0), sp.style, hl) =~= Seq::<(Seq<char>, Style)>::empty());
        while k < rs.len()
            invariant
                k <= rs@.len(),
                rv == rs@.map_values(|x: (Vec<char>, bool)| (x.0@, x.1)),
                patched == patch(sp.style, hl),
                out@.map_values(|s: Span| (s.text@, s.style)) == before + styled_runs(rv.take(k as int), sp.style, hl),
            decreases rs.len() - k,
        {
            let ghost b2 = out@.map_values(|s: Span| (s.text@, s.style));
            let piece = crate::text::string_of(&rs[k].0);
            out.push(Span { text: piece, style: if rs[k].1 { patched } else { sp.style } });
            proof {
                assert(rv.take(k + 1) =~= rv.take(k as int).push(rv[k as int]));
                assert(styled_runs(rv.take(k + 1), sp.style, hl) =~= styled_runs(rv.take(k as int), sp.style, hl).push(
                    (rv[k as int].0, if rv[k as int].1 { patch(sp.style, hl) } else { sp.style }),
                ));
                assert(out@.map_values(|s: Span| (s.text@, s.style)) =~= b2.push(
                    (rv[k as int].0, if rv[k as int].1 { patch(sp.style, hl) } else { sp.style }),
                ));
            }
            k += 1;
        }
        assert(rv.take(k as int) =~= rv);
        off = off + cs.len();
        i += 1;
    }
    assert(lv.take(i as int) =~= lv);
    Line { spans: out }
}

proof fn lemma_marks_len(t: Seq<char>, q: Seq<char>, i: int, m: Seq<bool>)
    ensures
        marks(t, q, i, m).len() == m.len(),
    decreases t.len() - i,
{
    if q.len() == 0 || i < 0 || i + q.len() > t.len() {
    } else if t.subrange(i, i + q.len()) == q {
        lemma_marks_len(t, q, i + q.len(), Seq::new(m.len(), |j: int| if i <= j < i + q.len() { true } else { m[j] }));
    } else {
        lemma_marks_len(t, q, i + 1, m);
    }
}

/// Text lengths of prefixes never exceed the whole.
proof fn lemma_line_text_prefix(l: LineView, k: int)
    requires
        0 <= k <= l.len(),
    ensures
        line_text(l.take(k)).len() <= line_text(l).len(),
        k > 0 ==> line_text(l.take(k)) == line_text(l.take(k - 1)) + l[k - 1].0,
    decreases l.len() - k,
{
    if k > 0 {
        assert(l.take(k).drop_last() =~= l.take(k - 1));
    }
    if k < l.len() {
        lemma_line_text_prefix(l, k + 1);
        assert(l.take(k + 1).drop_last() =~= l.take(k));
    } else {
        assert(l.take(k) =~= l);
    }
}


/// The cursor line: every span restyled with the highlight, and the
/// highlight carried to the full width by a trailing run of 200 spaces (a
/// single space on an empty line).
pub open spec fn cursor_line_spec(l: LineView, hl: Style) -> LineView {
    l.map_values(|p: (Seq<char>, Style)| (p.0, patch(p.1, hl))) + if l.len() == 0 {
        seq![(" "@, hl)]
    } else {
        seq![(Seq::new(200, |i: int| ' '), hl)]
    }
}

pub fn cursor_line(line: &Line, hl: Style) -> (r: Line)
    ensures
        r@ == cursor_line_spec(line@, hl),
{
    let mut spans: Vec<Span> = Vec::new();
    let ghost want = line@.map_values(|p: (Seq<char>, Style)| (p.0, patch(p.1, hl)));
    let mut i: usize = 0;
    while i < line.spans.len()
        invariant
            i <= line.spans@.len(),
            want == line@.map_values(|p: (Seq<char>, Style)| (p.0, patch(p.1, hl))),
            spans@.map_values(|s: Span| (s.text@, s.style)) == want.take(i as int),
        decreases line.spans.len() - i,
    {
        let ghost before = spans@.map_values(|s: Span| (s.text@, s.style));
        let s = &line.spans[i];
        spans.push(Span { text: s.text.clone(), style: patch_style(s.style, hl) });
        assert(spans@.map_values(|s: Span| (s.text@, s.style)) =~= before.push(want[i as int]));
        assert(want.take(i + 1) =~= want.take(i as int).push(want[i as int]));
        i += 1;
    }
    assert(want.take(i as int) =~= want);
    let ghost body = spans@.map_values(|s: Span| (s.text@, s.style));
    if line.spans.len() == 0 {
        let mut t = String::new();
        crate::text::push_str(&mut t, " ");
        spans.push(Span { text: t, style: hl });
    } else {
        let mut t = String::new();
        let mut k: usize = 0;
        while k < 200
            invariant
                k <= 200,
                t@ == Seq::new(k as nat, |i: int| ' '),
            decreases 200 - k,
        {
            crate::text::push_char(&mut t, ' ');
            k += 1;
            assert(t@ =~= Seq::new(k as nat, |i: int| ' '));
        }
        spans.push(Span { text: t, style: hl });
    }
    let r = Line { spans };
    assert(r@ =~= cursor_line_spec(line@, hl));
    r
}

} // verus!
