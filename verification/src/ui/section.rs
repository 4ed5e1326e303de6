//! The section tree, Magit's core abstraction: every buffer is a tree of
//! sections, and commands act on the section at point (DWIM dispatch).

use std::hash::BuildHasher;

use vstd::prelude::*;

use crate::git::types::DiffArea;
use crate::theme::Color;

verus! {

pub type SectionId = u64;

/// What the section *is*: the value commands dispatch on.
#[derive(Debug, Clone, PartialEq, Eq)]
pub enum SectionValue {
    Root,
    Group(Group),
    File { area: DiffArea, path: String },
    Hunk {
        area: DiffArea,
        path: String,
        /// Index into the owning `FileDiff::hunks`.
        hunk_idx: usize,
    },
    Commit { hash: String },
    Stash { index: usize },
    /// Inert content (process log entries, revision headers, ...).
    Text,
}

#[derive(Debug, Clone, Copy, PartialEq, Eq, Structural)]
pub enum Group {
    Untracked,
    Unmerged,
    Unstaged,
    Staged,
    Stashes,
    Recent,
}

/// What std's `DefaultHasher` (built by `new`, whose keys are fixed, so the
/// value depends on the input alone) gives for `parent` followed by `key`.
pub uninterp spec fn default_hash(parent: u64, key: Seq<char>) -> u64;

/// `BuildHasher::hash_one` over `(parent, key)` with the default hasher,
/// which hashes `parent` and then `key` into a fresh `DefaultHasher`: the
/// contract claims only that the result is a function of the two, named
/// `default_hash`.
#[verifier::external_body]
fn hash_pair(parent: u64, key: &str) -> (r: u64)
    ensures
        r == default_hash(parent, key@),
{
    std::hash::BuildHasherDefault::<std::collections::hash_map::DefaultHasher>::default().hash_one((parent, key))
}

/// Stable identity across refreshes: the hash of the parent id and the
/// section's own key.
pub fn section_id(parent: SectionId, key: &str) -> (r: SectionId)
    ensures
        r == default_hash(parent, key@),
{
    hash_pair(parent, key)
}


// ---------------------------------------------------------------------------
// Styled text
// ---------------------------------------------------------------------------

/// How a piece of text is drawn.
#[derive(Debug, Clone, Copy, PartialEq, Eq, Structural)]
pub struct Style {
    pub fg: Option<Color>,
    pub bg: Option<Color>,
    pub bold: bool,
    pub dim: bool,
    pub reversed: bool,
    pub crossed_out: bool,
}

impl Style {
    pub fn plain() -> (r: Style)
        ensures
            r.fg is None && r.bg is None && !r.bold && !r.dim && !r.reversed && !r.crossed_out,
    {
        Style { fg: None, bg: None, bold: false, dim: false, reversed: false, crossed_out: false }
    }
}

#[derive(Debug, Clone, PartialEq, Eq)]
pub struct Span {
    pub text: String,
    pub style: Style,
}

/// One line of a buffer: styled spans.
#[derive(Debug, Clone, PartialEq, Eq)]
pub struct Line {
    pub spans: Vec<Span>,
}

pub type LineView = Seq<(Seq<char>, Style)>;

impl View for Line {
    type V = LineView;

    open spec fn view(&self) -> LineView {
        self.spans@.map_values(|s: Span| (s.text@, s.style))
    }
}

/// The text of a line: its spans' texts joined.
pub open spec fn line_text(l: LineView) -> Seq<char>
    decreases l.len(),
{
    if l.len() == 0 {
        Seq::empty()
    } else {
        line_text(l.drop_last()) + l.last().0
    }
}

impl Line {
    /// An empty line.
    pub fn empty() -> (r: Line)
        ensures
            r@.len() == 0,
    {
        let r = Line { spans: Vec::new() };
        assert(r@ =~= Seq::<(Seq<char>, Style)>::empty());
        r
    }

    /// A line of unstyled text.
    pub fn raw(text: &str) -> (r: Line)
        ensures
            r@ == seq![(text@, Style { fg: None, bg: None, bold: false, dim: false, reversed: false, crossed_out: false })],
    {
        let mut t = String::new();
        crate::text::push_str(&mut t, text);
        let mut spans = Vec::new();
        spans.push(Span { text: t, style: Style::plain() });
        let r = Line { spans };
        assert(r@ =~= seq![(text@, Style { fg: None, bg: None, bold: false, dim: false, reversed: false, crossed_out: false })]);
        r
    }

    /// An equal line.
    pub fn copy(&self) -> (r: Line)
        ensures
            r@ == self@,
    {
        let mut spans: Vec<Span> = Vec::new();
        let mut i: usize = 0;
        while i < self.spans.len()
            invariant
                i <= self.spans@.len(),
                spans@.map_values(|s: Span| (s.text@, s.style)) == self@.take(i as int),
            decreases self.spans.len() - i,
        {
            let ghost before = spans@.map_values(|s: Span| (s.text@, s.style));
            let sp = &self.spans[i];
            spans.push(Span { text: sp.text.clone(), style: sp.style });
            assert(spans@.map_values(|s: Span| (s.text@, s.style)) =~= before.push((sp.text@, sp.style)));
            assert(self@.take(i + 1) =~= self@.take(i as int).push((sp.text@, sp.style)));
            i += 1;
        }
        assert(self@.take(i as int) =~= self@);
        Line { spans }
    }

    /// The text of the line.
    pub fn text(&self) -> (r: String)
        ensures
            r@ == line_text(self@),
    {
        let mut out = String::new();
        let mut i: usize = 0;
        assert(self@.take(0) =~= Seq::<(Seq<char>, Style)>::empty());
        while i < self.spans.len()
            invariant
                i <= self.spans@.len(),
                out@ == line_text(self@.take(i as int)),
            decreases self.spans.len() - i,
        {
            crate::text::push_str(&mut out, self.spans[i].text.as_str());
            assert(self@.take(i + 1).drop_last() =~= self@.take(i as int));
            i += 1;
        }
        assert(self@.take(i as int) =~= self@);
        out
    }
}

pub open spec fn opt_line(l: Option<Line>) -> Option<LineView> {
    match l {
        Some(x) => Some(x@),
        None => None,
    }
}

fn copy_opt_line(l: &Option<Line>) -> (r: Option<Line>)
    ensures
        opt_line(r) == opt_line(*l),
{
    match l {
        Some(x) => Some(x.copy()),
        None => None,
    }
}

// ---------------------------------------------------------------------------
// The tree
// ---------------------------------------------------------------------------

#[derive(Debug)]
pub struct Section {
    /// Stable identity across refreshes (hash of parent id + own key).
    pub id: SectionId,
    pub value: SectionValue,
    pub heading: Line,
    pub body: Vec<Line>,
    pub children: Vec<Section>,
    pub collapsed: bool,
    /// When set on the root, its children render as one tight list: no
    /// blank-line separators between them, and no blank line between the root
    /// body (e.g. the log header) and the first child. Used by the log.
    pub compact: bool,
    /// When set, this section's body lines render as a full-width bar in this
    /// background color (the log header).
    pub body_fill: Option<Color>,
    /// Optional right-aligned trailer for this section's heading line (the log
    /// margin: author + date), placed flush to the buffer's right edge.
    pub margin: Option<Line>,
}

pub open spec fn line_views(v: Seq<Line>) -> Seq<LineView> {
    v.map_values(|l: Line| l@)
}

impl Section {
    pub fn root() -> (r: Section)
        ensures
            r.id == 0,
            r.value == SectionValue::Root,
            r.heading@.len() == 0,
            r.body@.len() == 0,
            r.children@.len() == 0,
            !r.collapsed,
            !r.compact,
            r.body_fill is None,
            r.margin is None,
    {
        Section {
            id: 0,
            value: SectionValue::Root,
            heading: Line::empty(),
            body: Vec::new(),
            children: Vec::new(),
            collapsed: false,
            compact: false,
            body_fill: None,
            margin: None,
        }
    }

    pub fn new(parent_id: SectionId, key: &str, value: SectionValue, heading: Line) -> (r: Section)
        ensures
            r.id == default_hash(parent_id, key@),
            r.value == value,
            r.heading@ == heading@,
            r.body@.len() == 0,
            r.children@.len() == 0,
            !r.collapsed,
            !r.compact,
            r.body_fill is None,
            r.margin is None,
    {
        Section {
            id: section_id(parent_id, key),
            value,
            heading,
            body: Vec::new(),
            children: Vec::new(),
            collapsed: false,
            compact: false,
            body_fill: None,
            margin: None,
        }
    }

    /// Append a body line.
    pub fn push_body(&mut self, line: Line)
        ensures
            line_views(final(self).body@) == line_views(old(self).body@).push(line@),
            final(self).children@ == old(self).children@,
            final(self).id == old(self).id,
            final(self).collapsed == old(self).collapsed,
    {
        let ghost before = line_views(self.body@);
        let ghost lv = line@;
        self.body.push(line);
        assert(line_views(self.body@) =~= before.push(lv));
    }

    pub fn is_foldable(&self) -> (r: bool)
        ensures
            r == (self.children@.len() > 0 || self.body@.len() > 0),
    {
        self.children.len() > 0 || self.body.len() > 0
    }
}

/// The section at a child-index path, if the path leads somewhere.
pub open spec fn at_path_spec(s: Section, path: Seq<usize>) -> Option<Section>
    decreases path.len(),
{
    if path.len() == 0 {
        Some(s)
    } else {
        match at_path_spec(s, path.drop_last()) {
            Some(n) => if path.last() < n.children@.len() {
                Some(n.children@[path.last() as int])
            } else {
                None
            },
            None => None,
        }
    }
}

impl Section {
    /// Resolve a child-index path (as stored in `FlatLine::path`).
    pub fn at_path<'a>(&'a self, path: &[usize]) -> (r: Option<&'a Section>)
        ensures
            match r {
                Some(n) => at_path_spec(*self, path@) == Some(*n),
                None => at_path_spec(*self, path@) is None,
            },
    {
        let mut node = self;
        let mut i: usize = 0;
        assert(path@.take(0) =~= Seq::<usize>::empty());
        while i < path.len()
            invariant
                i <= path@.len(),
                at_path_spec(*self, path@.take(i as int)) == Some(*node),
            decreases path.len() - i,
        {
            assert(path@.take(i + 1).drop_last() =~= path@.take(i as int));
            assert(path@.take(i + 1).last() == path@[i as int]);
            let k = path[i];
            if k >= node.children.len() {
                proof {
                    lemma_at_path_dead(*self, path@, i as int + 1);
                }
                return None;
            }
            node = &node.children[k];
            i += 1;
        }
        assert(path@.take(i as int) =~= path@);
        Some(node)
    }
}

/// The section at a child-index path, read from the front of the path.
pub open spec fn at_from(s: Section, path: Seq<usize>) -> Option<Section>
    decreases path.len(),
{
    if path.len() == 0 {
        Some(s)
    } else if path[0] < s.children@.len() {
        at_from(s.children@[path[0] as int], path.drop_first())
    } else {
        None
    }
}

/// `n` is `o` with the section at `path` replaced by `sub`: every other
/// section, and every field on the way down, is unchanged.
pub open spec fn replaced_at(o: Section, n: Section, path: Seq<usize>, sub: Section) -> bool
    decreases path.len(),
{
    if path.len() == 0 {
        n == sub
    } else {
        let i = path[0] as int;
        &&& 0 <= i < o.children@.len()
        &&& n.id == o.id
        &&& n.value == o.value
        &&& n.heading == o.heading
        &&& n.body == o.body
        &&& n.collapsed == o.collapsed
        &&& n.compact == o.compact
        &&& n.body_fill == o.body_fill
        &&& n.margin == o.margin
        &&& n.children@ == o.children@.update(i, n.children@[i])
        &&& replaced_at(o.children@[i], n.children@[i], path.drop_first(), sub)
    }
}

proof fn lemma_at_from_push(s: Section, p: Seq<usize>, x: usize)
    ensures
        at_from(s, p.push(x)) == match at_from(s, p) {
            Some(n) => if x < n.children@.len() {
                Some(n.children@[x as int])
            } else {
                None
            },
            None => None,
        },
    decreases p.len(),
{
    let q = p.push(x);
    if p.len() == 0 {
        assert(q.drop_first() =~= Seq::<usize>::empty());
        assert(q[0] == x);
        if x < s.children@.len() {
            assert(at_from(s.children@[x as int], q.drop_first()) == Some(s.children@[x as int]));
        }
    } else {
        assert(q.drop_first() =~= p.drop_first().push(x));
        assert(q[0] == p[0]);
        if p[0] < s.children@.len() {
            lemma_at_from_push(s.children@[p[0] as int], p.drop_first(), x);
        }
    }
}

/// Reading a path from the back and from the front finds the same section.
pub proof fn lemma_at_path_from(s: Section, p: Seq<usize>)
    ensures
        at_path_spec(s, p) == at_from(s, p),
    decreases p.len(),
{
    if p.len() > 0 {
        lemma_at_path_from(s, p.drop_last());
        lemma_at_from_push(s, p.drop_last(), p.last());
        assert(p.drop_last().push(p.last()) =~= p);
    }
}

/// Writing the section at `path` back with its fold state flipped gives the
/// tree that `toggled_at` describes.
pub proof fn lemma_replaced_toggled(o: Section, n: Section, path: Seq<usize>, sub: Section)
    requires
        replaced_at(o, n, path, sub),
        at_from(o, path) is Some,
        section_view(sub) == (SectionView {
            collapsed: !at_from(o, path)->0.collapsed,
            ..section_view(at_from(o, path)->0)
        }),
    ensures
        section_view(n) == toggled_at(section_view(o), path),
    decreases path.len(),
{
    if path.len() > 0 {
        let i = path[0] as int;
        lemma_replaced_toggled(o.children@[i], n.children@[i], path.drop_first(), sub);
        lemma_children_views(o.children@, o.children@.len() as int);
        lemma_children_views(n.children@, n.children@.len() as int);
        let ov = section_view(o);
        let want = ov.children.update(i, toggled_at(ov.children[i], path.drop_first()));
        assert(section_view(n).children =~= want);
        assert(section_view(n) =~= toggled_at(ov, path));
    } else {
        assert(section_view(n) =~= toggled_at(section_view(o), path));
    }
}

fn descend_mut<'a>(node: &'a mut Section, path: &[usize], from: usize) -> (r: &'a mut Section)
    requires
        from <= path@.len(),
        at_from(*old(node), path@.skip(from as int)) is Some,
    ensures
        at_from(*old(node), path@.skip(from as int)) == Some(*r),
        replaced_at(*old(node), *final(node), path@.skip(from as int), *final(r)),
    decreases path@.len() - from,
{
    if from == path.len() {
        assert(path@.skip(from as int) =~= Seq::<usize>::empty());
        node
    } else {
        let i = path[from];
        let ghost rest = path@.skip(from as int);
        assert(rest[0] == i);
        assert(rest.drop_first() =~= path@.skip(from + 1));
        let child = &mut node.children[i];
        descend_mut(child, path, from + 1)
    }
}

impl Section {
    /// Resolve a child-index path for writing: the section there, through
    /// which the tree changes at that one place.
    pub fn at_path_mut<'a>(&'a mut self, path: &[usize]) -> (r: Option<&'a mut Section>)
        ensures
            match r {
                Some(n) => {
                    &&& at_path_spec(*old(self), path@) == Some(*n)
                    &&& replaced_at(*old(self), *final(self), path@, *final(n))
                },
                None => {
                    &&& at_path_spec(*old(self), path@) is None
                    &&& *final(self) == *old(self)
                },
            },
    {
        proof {
            lemma_at_path_from(*self, path@);
        }
        if self.at_path(path).is_none() {
            return None;
        }
        assert(path@.skip(0) =~= path@);
        Some(descend_mut(self, path, 0))
    }
}

/// Once a path leads nowhere, longer paths do not either.
proof fn lemma_at_path_dead(s: Section, path: Seq<usize>, k: int)
    requires
        0 <= k <= path.len(),
        at_path_spec(s, path.take(k)) is None,
    ensures
        at_path_spec(s, path) is None,
    decreases path.len() - k,
{
    if k < path.len() {
        assert(path.take(k + 1).drop_last() =~= path.take(k));
        lemma_at_path_dead(s, path, k + 1);
    } else {
        assert(path.take(k) =~= path);
    }
}


// ---------------------------------------------------------------------------
// The tree as a value
// ---------------------------------------------------------------------------

#[verifier::ext_equal]
pub struct SectionView {
    pub id: SectionId,
    pub value: SectionValue,
    pub heading: LineView,
    pub body: Seq<LineView>,
    pub children: Seq<SectionView>,
    pub collapsed: bool,
    pub compact: bool,
    pub body_fill: Option<Color>,
    pub margin: Option<LineView>,
}

pub open spec fn section_view(s: Section) -> SectionView
    decreases s, 0int,
{
    SectionView {
        id: s.id,
        value: s.value,
        heading: s.heading@,
        body: line_views(s.body@),
        children: children_views(s.children@, s.children@.len() as int),
        collapsed: s.collapsed,
        compact: s.compact,
        body_fill: s.body_fill,
        margin: opt_line(s.margin),
    }
}

/// The views of the first `k` sections of `cs`.
pub open spec fn children_views(cs: Seq<Section>, k: int) -> Seq<SectionView>
    decreases cs, k,
{
    if k <= 0 || k > cs.len() {
        Seq::empty()
    } else {
        children_views(cs, k - 1).push(section_view(cs[k - 1]))
    }
}

impl View for Section {
    type V = SectionView;

    open spec fn view(&self) -> SectionView {
        section_view(*self)
    }
}

pub proof fn lemma_children_views(cs: Seq<Section>, k: int)
    requires
        0 <= k <= cs.len(),
    ensures
        children_views(cs, k).len() == k,
        forall|i: int| 0 <= i < k ==> #[trigger] children_views(cs, k)[i] == section_view(cs[i]),
    decreases k,
{
    if k > 0 {
        lemma_children_views(cs, k - 1);
    }
}

/// One visible line of a flattened tree.
#[verifier::ext_equal]
pub struct FlatLineView {
    pub path: Seq<usize>,
    pub section_id: SectionId,
    pub is_heading: bool,
    pub body_idx: Option<usize>,
    pub line: LineView,
    pub margin: Option<LineView>,
    pub fill_bg: Option<Color>,
}

/// One visible line of a flattened tree. Rendering and cursor movement both
/// operate on `Vec<FlatLine>`; it is rebuilt on fold/refresh only.
#[derive(Debug)]
pub struct FlatLine {
    /// Child-index path from the root to the owning section.
    pub path: Vec<usize>,
    pub section_id: SectionId,
    pub is_heading: bool,
    /// Index into the owning section's `body` (None for headings/spacers).
    pub body_idx: Option<usize>,
    pub line: Line,
    /// Right-aligned trailer (only ever set on a heading line: the log margin).
    pub margin: Option<Line>,
    /// When set, extend this line's background across the full pane width in
    /// this color (the log header bar).
    pub fill_bg: Option<Color>,
}

impl View for FlatLine {
    type V = FlatLineView;

    open spec fn view(&self) -> FlatLineView {
        FlatLineView {
            path: self.path@,
            section_id: self.section_id,
            is_heading: self.is_heading,
            body_idx: self.body_idx,
            line: self.line@,
            margin: opt_line(self.margin),
            fill_bg: self.fill_bg,
        }
    }
}

pub open spec fn flat_views(v: Seq<FlatLine>) -> Seq<FlatLineView> {
    v.map_values(|f: FlatLine| f@)
}

pub open spec fn spacer_spec(path: Seq<usize>, id: SectionId) -> FlatLineView {
    FlatLineView {
        path,
        section_id: id,
        is_heading: false,
        body_idx: None,
        line: Seq::empty(),
        margin: None,
        fill_bg: None,
    }
}

/// The body lines of a section, owned by `path`.
pub open spec fn body_lines(s: SectionView, path: Seq<usize>, fill: Option<Color>) -> Seq<FlatLineView> {
    Seq::new(
        s.body.len(),
        |i: int|
            FlatLineView {
                path,
                section_id: s.id,
                is_heading: false,
                body_idx: Some(i as usize),
                line: s.body[i],
                margin: None,
                fill_bg: fill,
            },
    )
}

/// A section's lines: its heading, then (unless collapsed) its body and
/// its children's lines, depth first.
pub open spec fn flatten_into_spec(s: SectionView, path: Seq<usize>) -> Seq<FlatLineView>
    decreases s, 0int,
{
    seq![
        FlatLineView {
            path,
            section_id: s.id,
            is_heading: true,
            body_idx: None,
            line: s.heading,
            margin: s.margin,
            fill_bg: None,
        },
    ] + if s.collapsed {
        Seq::empty()
    } else {
        body_lines(s, path, None) + sub_flat(s.children, path, s.children.len() as int)
    }
}

/// The lines of the first `k` children, each under `path` and its index.
pub open spec fn sub_flat(cs: Seq<SectionView>, path: Seq<usize>, k: int) -> Seq<FlatLineView>
    decreases cs, k,
{
    if k <= 0 || k > cs.len() {
        Seq::empty()
    } else {
        sub_flat(cs, path, k - 1) + flatten_into_spec(cs[k - 1], path.push((k - 1) as usize))
    }
}

/// The root's first `k` children, separated by spacers unless compact.
pub open spec fn root_children(cs: Seq<SectionView>, compact: bool, k: int) -> Seq<FlatLineView>
    decreases k,
{
    if k <= 0 || k > cs.len() {
        Seq::empty()
    } else {
        root_children(cs, compact, k - 1) + flatten_into_spec(cs[k - 1], seq![(k - 1) as usize]) + if k
            < cs.len() && !compact {
            seq![spacer_spec(seq![(k - 1) as usize], cs[k - 1].id)]
        } else {
            Seq::empty()
        }
    }
}

/// The visible lines of a tree: the root's body (the status header), a
/// spacer, then each child depth first, spacers between them.
pub open spec fn flatten_spec(root: SectionView) -> Seq<FlatLineView> {
    body_lines(root, Seq::empty(), root.body_fill) + (if root.body.len() > 0 && root.children.len() > 0
        && !root.compact {
        seq![spacer_spec(Seq::empty(), root.id)]
    } else {
        Seq::empty()
    }) + root_children(root.children, root.compact, root.children.len() as int)
}

fn copy_path(p: &Vec<usize>) -> (r: Vec<usize>)
    ensures
        r@ == p@,
{
    let mut r = Vec::new();
    let mut i: usize = 0;
    while i < p.len()
        invariant
            i <= p@.len(),
            r@ == p@.take(i as int),
        decreases p.len() - i,
    {
        r.push(p[i]);
        assert(r@ =~= p@.take(i + 1));
        i += 1;
    }
    assert(p@.take(i as int) =~= p@);
    r
}

fn push_body_lines(s: &Section, path: &Vec<usize>, fill: Option<Color>, out: &mut Vec<FlatLine>)
    ensures
        flat_views(final(out)@) == flat_views(old(out)@) + body_lines(s@, path@, fill),
{
    let ghost base = flat_views(out@);
    let ghost want = body_lines(s@, path@, fill);
    let mut i: usize = 0;
    assert(want.take(0) =~= Seq::<FlatLineView>::empty());
    assert(base + want.take(0) =~= base);
    while i < s.body.len()
        invariant
            i <= s.body@.len(),
            want == body_lines(s@, path@, fill),
            want.len() == s.body@.len(),
            flat_views(out@) == base + want.take(i as int),
        decreases s.body.len() - i,
    {
        let ghost before = flat_views(out@);
        let f = FlatLine {
            path: copy_path(path),
            section_id: s.id,
            is_heading: false,
            body_idx: Some(i),
            line: s.body[i].copy(),
            margin: None,
            fill_bg: fill,
        };
        proof {
            assert(line_views(s.body@)[i as int] == s.body@[i as int]@);
            assert(f@ =~= want[i as int]);
        }
        out.push(f);
        assert(flat_views(out@) =~= before.push(want[i as int]));
        assert(want.take(i + 1) =~= want.take(i as int).push(want[i as int]));
        i += 1;
    }
    assert(want.take(i as int) =~= want);
}

fn flatten_into(s: &Section, path: Vec<usize>, out: &mut Vec<FlatLine>)
    ensures
        flat_views(final(out)@) == flat_views(old(out)@) + flatten_into_spec(s@, path@),
    decreases s,
{
    let ghost base = flat_views(out@);
    let ghost sv = s@;
    let head = FlatLine {
        path: copy_path(&path),
        section_id: s.id,
        is_heading: true,
        body_idx: None,
        line: s.heading.copy(),
        margin: copy_opt_line(&s.margin),
        fill_bg: None,
    };
    out.push(head);
    let ghost first = seq![
        FlatLineView {
            path: path@,
            section_id: sv.id,
            is_heading: true,
            body_idx: None,
            line: sv.heading,
            margin: sv.margin,
            fill_bg: None,
        },
    ];
    assert(flat_views(out@) =~= base + first);
    if s.collapsed {
        assert(flat_views(out@) =~= base + flatten_into_spec(sv, path@));
        return;
    }
    push_body_lines(s, &path, None, out);
    let ghost mid = flat_views(out@);
    proof {
        lemma_children_views(s.children@, s.children@.len() as int);
    }
    let mut i: usize = 0;
    assert(mid + sub_flat(sv.children, path@, 0) =~= mid);
    while i < s.children.len()
        invariant
            i <= s.children@.len(),
            sv == section_view(*s),
            sv.children.len() == s.children@.len(),
            forall|j: int| 0 <= j < s.children@.len() ==> #[trigger] sv.children[j] == section_view(
                s.children@[j],
            ),
            flat_views(out@) == mid + sub_flat(sv.children, path@, i as int),
        decreases s.children.len() - i,
    {
        let mut p = copy_path(&path);
        p.push(i);
        let ghost before = flat_views(out@);
        flatten_into(&s.children[i], p, out);
        proof {
            assert(sv.children[i as int] == s.children@[i as int]@);
            assert(path@.push(i) == path@.push(((i + 1) - 1) as usize));
            assert(flat_views(out@) =~= mid + sub_flat(sv.children, path@, i + 1));
        }
        i += 1;
    }
    assert(flat_views(out@) =~= base + flatten_into_spec(sv, path@));
}

/// The visible lines of the tree, in display order.
pub fn flatten(root: &Section) -> (r: Vec<FlatLine>)
    ensures
        flat_views(r@) == flatten_spec(root@),
{
    let ghost rv = root@;
    let mut out: Vec<FlatLine> = Vec::new();
    let empty: Vec<usize> = Vec::new();
    assert(flat_views(out@) =~= Seq::<FlatLineView>::empty());
    push_body_lines(root, &empty, root.body_fill, &mut out);
    assert(empty@ =~= Seq::<usize>::empty());
    proof {
        lemma_children_views(root.children@, root.children@.len() as int);
    }
    if root.body.len() > 0 && root.children.len() > 0 && !root.compact {
        let ghost before = flat_views(out@);
        let f = FlatLine {
            path: Vec::new(),
            section_id: root.id,
            is_heading: false,
            body_idx: None,
            line: Line::empty(),
            margin: None,
            fill_bg: None,
        };
        assert(f@ =~= spacer_spec(Seq::empty(), root.id));
        out.push(f);
        assert(flat_views(out@) =~= before.push(spacer_spec(Seq::empty(), root.id)));
    }
    let ghost mid = flat_views(out@);
    let mut i: usize = 0;
    assert(mid + root_children(rv.children, rv.compact, 0) =~= mid);
    while i < root.children.len()
        invariant
            i <= root.children@.len(),
            rv == section_view(*root),
            rv.children.len() == root.children@.len(),
            forall|j: int| 0 <= j < root.children@.len() ==> #[trigger] rv.children[j] == section_view(
                root.children@[j],
            ),
            flat_views(out@) == mid + root_children(rv.children, rv.compact, i as int),
        decreases root.children.len() - i,
    {
        let mut p: Vec<usize> = Vec::new();
        p.push(i);
        let ghost before = flat_views(out@);
        flatten_into(&root.children[i], p, &mut out);
        let ghost after_child = flat_views(out@);
        if i + 1 < root.children.len() && !root.compact {
            let mut sp: Vec<usize> = Vec::new();
            sp.push(i);
            let f = FlatLine {
                path: sp,
                section_id: root.children[i].id,
                is_heading: false,
                body_idx: None,
                line: Line::empty(),
                margin: None,
                fill_bg: None,
            };
            assert(rv.children[i as int] == root.children@[i as int]@);
            assert(f@ =~= spacer_spec(seq![i], rv.children[i as int].id));
            out.push(f);
            assert(flat_views(out@) =~= after_child.push(spacer_spec(seq![i], rv.children[i as int].id)));
        }
        proof {
            assert(rv.children[i as int] == root.children@[i as int]@);
            assert(seq![i] =~= seq![((i + 1) - 1) as usize]);
            assert(flat_views(out@) =~= mid + root_children(rv.children, rv.compact, i + 1));
        }
        i += 1;
    }
    out
}


// ---------------------------------------------------------------------------
// Fold state
// ---------------------------------------------------------------------------

/// Every section's (id, collapsed), depth first, parents before children.
pub open spec fn states_of(s: SectionView) -> Seq<(SectionId, bool)>
    decreases s, 0int,
{
    seq![(s.id, s.collapsed)] + states_children(s.children, s.children.len() as int)
}

pub open spec fn states_children(cs: Seq<SectionView>, k: int) -> Seq<(SectionId, bool)>
    decreases cs, k,
{
    if k <= 0 || k > cs.len() {
        Seq::empty()
    } else {
        states_children(cs, k - 1) + states_of(cs[k - 1])
    }
}

/// The fold state recorded for `id`: the last one, as later entries of a
/// map overwrite earlier ones.
pub open spec fn state_for(states: Seq<(SectionId, bool)>, id: SectionId) -> Option<bool>
    decreases states.len(),
{
    if states.len() == 0 {
        None
    } else if states.last().0 == id {
        Some(states.last().1)
    } else {
        state_for(states.drop_last(), id)
    }
}

/// The tree with each section's fold state taken from `states` where it
/// has one.
pub open spec fn apply_states(s: SectionView, states: Seq<(SectionId, bool)>) -> SectionView
    decreases s, 0int,
{
    SectionView {
        collapsed: match state_for(states, s.id) {
            Some(c) => c,
            None => s.collapsed,
        },
        children: apply_children(s.children, states, s.children.len() as int),
        ..s
    }
}

pub open spec fn apply_children(cs: Seq<SectionView>, states: Seq<(SectionId, bool)>, k: int) -> Seq<SectionView>
    decreases cs, k,
{
    if k <= 0 || k > cs.len() {
        Seq::empty()
    } else {
        apply_children(cs, states, k - 1).push(apply_states(cs[k - 1], states))
    }
}

fn collect_states(s: &Section, out: &mut Vec<(SectionId, bool)>)
    ensures
        final(out)@ == old(out)@ + states_of(s@),
    decreases s,
{
    let ghost base = out@;
    let ghost sv = s@;
    out.push((s.id, s.collapsed));
    proof {
        lemma_children_views(s.children@, s.children@.len() as int);
    }
    let ghost mid = out@;
    assert(mid =~= base + seq![(sv.id, sv.collapsed)]);
    let mut i: usize = 0;
    assert(mid + states_children(sv.children, 0) =~= mid);
    while i < s.children.len()
        invariant
            i <= s.children@.len(),
            sv == section_view(*s),
            sv.children.len() == s.children@.len(),
            forall|j: int| 0 <= j < s.children@.len() ==> #[trigger] sv.children[j] == section_view(
                s.children@[j],
            ),
            out@ == mid + states_children(sv.children, i as int),
        decreases s.children.len() - i,
    {
        collect_states(&s.children[i], out);
        proof {
            assert(sv.children[i as int] == s.children@[i as int]@);
            assert(out@ =~= mid + states_children(sv.children, i + 1));
        }
        i += 1;
    }
    assert(out@ =~= base + states_of(sv));
}

fn state_lookup(states: &Vec<(SectionId, bool)>, id: SectionId) -> (r: Option<bool>)
    ensures
        r == state_for(states@, id),
{
    let mut i = states.len();
    assert(states@.take(i as int) =~= states@);
    while i > 0
        invariant
            i <= states@.len(),
            state_for(states@, id) == state_for(states@.take(i as int), id),
        decreases i,
    {
        assert(states@.take(i as int).drop_last() =~= states@.take(i - 1));
        assert(states@.take(i as int).last() == states@[i - 1]);
        if states[i - 1].0 == id {
            return Some(states[i - 1].1);
        }
        i -= 1;
    }
    None
}

/// An equal section value.
pub fn copy_value_pub(v: &SectionValue) -> (r: SectionValue)
    ensures
        r == *v,
{
    copy_value(v)
}

fn copy_value(v: &SectionValue) -> (r: SectionValue)
    ensures
        r == *v,
{
    match v {
        SectionValue::Root => SectionValue::Root,
        SectionValue::Group(g) => SectionValue::Group(*g),
        SectionValue::File { area, path } => SectionValue::File { area: *area, path: path.clone() },
        SectionValue::Hunk { area, path, hunk_idx } => SectionValue::Hunk {
            area: *area,
            path: path.clone(),
            hunk_idx: *hunk_idx,
        },
        SectionValue::Commit { hash } => SectionValue::Commit { hash: hash.clone() },
        SectionValue::Stash { index } => SectionValue::Stash { index: *index },
        SectionValue::Text => SectionValue::Text,
    }
}

fn copy_lines(v: &Vec<Line>) -> (r: Vec<Line>)
    ensures
        line_views(r@) == line_views(v@),
{
    let mut out: Vec<Line> = Vec::new();
    let mut i: usize = 0;
    while i < v.len()
        invariant
            i <= v@.len(),
            line_views(out@) == line_views(v@).take(i as int),
        decreases v.len() - i,
    {
        let ghost before = line_views(out@);
        out.push(v[i].copy());
        assert(line_views(out@) =~= before.push(v@[i as int]@));
        assert(line_views(v@).take(i + 1) =~= line_views(v@).take(i as int).push(v@[i as int]@));
        i += 1;
    }
    assert(line_views(v@).take(i as int) =~= line_views(v@));
    out
}

/// A copy of the tree with the fold states of `states`.
fn inherited(s: &Section, states: &Vec<(SectionId, bool)>) -> (r: Section)
    ensures
        r@ == apply_states(s@, states@),
    decreases s,
{
    let ghost sv = s@;
    proof {
        lemma_children_views(s.children@, s.children@.len() as int);
    }
    let collapsed = match state_lookup(states, s.id) {
        Some(c) => c,
        None => s.collapsed,
    };
    let mut kids: Vec<Section> = Vec::new();
    let mut k: usize = 0;
    assert(children_views(kids@, 0) =~= apply_children(sv.children, states@, 0));
    while k < s.children.len()
        invariant
            k <= s.children@.len(),
            sv == section_view(*s),
            sv.children.len() == s.children@.len(),
            forall|j: int| 0 <= j < s.children@.len() ==> #[trigger] sv.children[j] == section_view(
                s.children@[j],
            ),
            kids@.len() == k,
            children_views(kids@, k as int) == apply_children(sv.children, states@, k as int),
        decreases s.children.len() - k,
    {
        let d = inherited(&s.children[k], states);
        let ghost before = kids@;
        kids.push(d);
        proof {
            lemma_children_views(before, k as int);
            lemma_children_views(kids@, k as int);
            lemma_children_views(kids@, k + 1);
            assert(children_views(kids@, k as int) =~= children_views(before, k as int));
            assert(sv.children[k as int] == s.children@[k as int]@);
        }
        k += 1;
    }
    let r = Section {
        id: s.id,
        value: copy_value(&s.value),
        heading: s.heading.copy(),
        body: copy_lines(&s.body),
        children: kids,
        collapsed,
        compact: s.compact,
        body_fill: s.body_fill,
        margin: copy_opt_line(&s.margin),
    };
    proof {
        assert(r@.children =~= apply_states(sv, states@).children);
        assert(r@ =~= apply_states(sv, states@));
    }
    r
}

impl Section {
    /// Copy collapse state from a previous tree by section identity.
    pub fn inherit_collapse(&mut self, previous: &Section)
        ensures
            final(self)@ == apply_states(old(self)@, states_of(previous@)),
    {
        let mut states: Vec<(SectionId, bool)> = Vec::new();
        collect_states(previous, &mut states);
        assert(states@ =~= states_of(previous@));
        let t = inherited(self, &states);
        *self = t;
    }
}


/// The tree with the fold state of the section at `path` flipped (the
/// tree unchanged when the path leads nowhere).
pub open spec fn toggled_at(s: SectionView, path: Seq<usize>) -> SectionView
    decreases path.len(),
{
    if path.len() == 0 {
        SectionView { collapsed: !s.collapsed, ..s }
    } else if path[0] < s.children.len() {
        SectionView {
            children: s.children.update(path[0] as int, toggled_at(s.children[path[0] as int], path.drop_first())),
            ..s
        }
    } else {
        s
    }
}

/// Flipping the fold state at one path twice gives back the tree.
pub proof fn law_fold_toggle_twice_restores(s: SectionView, path: Seq<usize>)
    ensures
        toggled_at(toggled_at(s, path), path) == s,
    decreases path.len(),
{
    if path.len() == 0 {
        assert(toggled_at(toggled_at(s, path), path) =~= s);
    } else if path[0] < s.children.len() {
        let i = path[0] as int;
        law_fold_toggle_twice_restores(s.children[i], path.drop_first());
        assert(toggled_at(toggled_at(s, path), path).children =~= s.children);
        assert(toggled_at(toggled_at(s, path), path) =~= s);
    }
}

} // verus!
