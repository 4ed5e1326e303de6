//! The help overlay: the current buffer's bindings, then the global ones,
//! each row the keys, the command's name and what it does; and where the
//! overlay sits on the screen, with the scroll clamped so the last line
//! stays at the bottom edge.

use vstd::prelude::*;

use crate::command::{command_desc, command_name, info, Command};
use crate::keymap::{bindings_spec, local_entry, Keymaps, PaneKind};
use crate::order::{keyed_views, sorted_by_key};
use crate::ops::{cat, owned};
use crate::text::{decimal, push_decimal, push_str};
use crate::theme::{Color, Theme};
use crate::ui::section::{Line, LineView, Span, Style};
use crate::ui::transient::{pad, pad_str};

verus! {

pub open spec fn fg(c: Color) -> Style {
    Style { fg: Some(c), bg: None, bold: false, dim: false, reversed: false, crossed_out: false }
}

pub open spec fn plain() -> Style {
    Style { fg: None, bg: None, bold: false, dim: false, reversed: false, crossed_out: false }
}

/// One binding: the keys, the command's name and its description.
pub open spec fn binding_row(keys: Seq<char>, cmd: Command, t: Theme) -> LineView {
    seq![
        (" "@ + pad(keys, 10), fg(t.key)),
        (pad(command_name(cmd), 16), fg(t.command)),
        (command_desc(cmd), plain()),
    ]
}

pub open spec fn binding_rows(bs: Seq<(Seq<char>, Command)>, t: Theme) -> Seq<LineView> {
    bs.map_values(|b: (Seq<char>, Command)| binding_row(b.0, b.1, t))
}

/// A titled block of bindings followed by a blank line; nothing without
/// bindings.
pub open spec fn map_block(title: Seq<char>, bs: Seq<(Seq<char>, Command)>, t: Theme) -> Seq<LineView> {
    if bs.len() == 0 {
        Seq::empty()
    } else {
        seq![seq![(title, Style { fg: Some(t.menu_title), bg: None, bold: true, dim: false, reversed: false, crossed_out: false })]]
            + binding_rows(bs, t) + seq![Seq::<(Seq<char>, Style)>::empty()]
    }
}

pub open spec fn help_footer() -> LineView {
    seq![("j/k scroll \u{b7} q or ESC to close"@, Style { fg: None, bg: None, bold: false, dim: true, reversed: false, crossed_out: false })]
}

/// The overlay's lines: the buffer's block (if it has its own keymap), the
/// global block, then the footer.
pub open spec fn help_spec(
    local: Option<Seq<(Seq<char>, Command)>>,
    global: Seq<(Seq<char>, Command)>,
    t: Theme,
) -> Seq<LineView> {
    let buffer = match local {
        Some(b) => map_block("Buffer keys"@, b, t),
        None => Seq::empty(),
    };
    buffer + map_block("Global keys"@, global, t) + seq![help_footer()]
}

pub open spec fn line_views(v: Seq<Line>) -> Seq<LineView> {
    v.map_values(|l: Line| l@)
}

fn styled(text: String, style: Style) -> (r: Line)
    ensures
        r@ == seq![(text@, style)],
{
    let mut spans: Vec<Span> = Vec::new();
    spans.push(Span { text, style });
    let r = Line { spans };
    assert(r@ =~= seq![(text@, style)]);
    r
}

fn push_block(out: &mut Vec<Line>, title: &str, bs: &Vec<(String, Command)>, t: &Theme)
    ensures
        line_views(final(out)@) == line_views(old(out)@) + map_block(title@, keyed_views(bs@), *t),
{
    let ghost start = line_views(out@);
    if bs.len() == 0 {
        assert(line_views(out@) =~= start + Seq::<LineView>::empty());
        return;
    }
    let title_style = Style { fg: Some(t.menu_title), bg: None, bold: true, dim: false, reversed: false, crossed_out: false };
    out.push(styled(owned(title), title_style));
    let ghost head = line_views(out@);
    assert(head =~= start + seq![seq![(title@, title_style)]]);
    let ghost rows = binding_rows(keyed_views(bs@), *t);
    let mut i: usize = 0;
    while i < bs.len()
        invariant
            i <= bs@.len(),
            rows == binding_rows(keyed_views(bs@), *t),
            line_views(out@) == head + rows.take(i as int),
        decreases bs.len() - i,
    {
        let (keys, cmd) = (&bs[i].0, bs[i].1);
        let ci = info(cmd);
        let mut spans: Vec<Span> = Vec::new();
        let mut k = owned(" ");
        push_str(&mut k, pad_str(keys.as_str(), 10).as_str());
        spans.push(Span { text: k, style: Style { fg: Some(t.key), bg: None, bold: false, dim: false, reversed: false, crossed_out: false } });
        spans.push(
            Span {
                text: pad_str(ci.name, 16),
                style: Style { fg: Some(t.command), bg: None, bold: false, dim: false, reversed: false, crossed_out: false },
            },
        );
        spans.push(Span { text: owned(ci.desc), style: Style::plain() });
        let line = Line { spans };
        assert(line@ =~= binding_row(keys@, cmd, *t));
        let ghost before = line_views(out@);
        out.push(line);
        assert(line_views(out@) =~= before.push(rows[i as int]));
        assert(rows.take(i + 1) =~= rows.take(i as int).push(rows[i as int]));
        i += 1;
    }
    assert(rows.take(i as int) =~= rows);
    let ghost before = line_views(out@);
    let blank = Line::empty();
    assert(blank@ =~= Seq::<(Seq<char>, Style)>::empty());
    out.push(blank);
    assert(line_views(out@) =~= before.push(Seq::<(Seq<char>, Style)>::empty()));
    assert(line_views(out@) =~= start + map_block(title@, keyed_views(bs@), *t));
}

/// The overlay's lines from the bindings of the buffer's keymap (if any)
/// and of the global one.
pub fn help_lines_from(local: Option<&Vec<(String, Command)>>, global: &Vec<(String, Command)>, t: &Theme) -> (r:
    Vec<Line>)
    ensures
        line_views(r@) == help_spec(
            match local {
                Some(b) => Some(keyed_views(b@)),
                None => None,
            },
            keyed_views(global@),
            *t,
        ),
{
    let mut out: Vec<Line> = Vec::new();
    assert(line_views(out@) =~= Seq::<LineView>::empty());
    match local {
        Some(b) => push_block(&mut out, "Buffer keys", b, t),
        None => {},
    }
    push_block(&mut out, "Global keys", global, t);
    let footer = styled(
        owned("j/k scroll \u{b7} q or ESC to close"),
        Style { fg: None, bg: None, bold: false, dim: true, reversed: false, crossed_out: false },
    );
    let ghost before = line_views(out@);
    out.push(footer);
    assert(line_views(out@) =~= before.push(help_footer()));
    out
}

/// The overlay's lines for a buffer of `kind` (the status buffer's keys
/// when no buffer is open). Each block lists its keymap's bindings sorted
/// by their notation.
pub fn help_lines(keymaps: &Keymaps, kind: PaneKind, t: &Theme) -> (r: Vec<Line>)
    ensures
        exists|l: Option<Seq<(Seq<char>, Command)>>, g: Seq<(Seq<char>, Command)>|
            {
                &&& match (l, local_entry(keymaps.locals(), kind)) {
                    (Some(lb), Some(m)) => sorted_by_key(lb) && lb.to_multiset() == bindings_spec(m).to_multiset(),
                    (None, None) => true,
                    _ => false,
                }
                &&& sorted_by_key(g) && g.to_multiset() == bindings_spec(keymaps.global@).to_multiset()
                &&& line_views(r@) == help_spec(l, g, *t)
            },
{
    let global = keymaps.global.bindings();
    match keymaps.local_for(kind) {
        Some(m) => {
            let local = m.bindings();
            let r = help_lines_from(Some(&local), &global, t);
            assert(line_views(r@) == help_spec(Some(keyed_views(local@)), keyed_views(global@), *t));
            r
        },
        None => {
            let r = help_lines_from(None, &global, t);
            assert(line_views(r@) == help_spec(None, keyed_views(global@), *t));
            r
        },
    }
}

/// Where the overlay goes and what it shows of `n` lines.
#[derive(Debug, Clone, PartialEq, Eq)]
pub struct HelpFrame {
    /// Offsets from the screen's top-left corner.
    pub dx: u16,
    pub dy: u16,
    pub width: u16,
    pub height: u16,
    /// The scroll offset, clamped so the last line stays at the bottom.
    pub scroll: usize,
    pub title: String,
}

/// The overlay is centred, 6 columns narrower than the screen but between
/// 20 and 72 wide, and as tall as its lines plus borders allow; scrolled
/// past the top it names the lines it shows.
pub open spec fn help_frame_spec(w: int, h: int, n: int, scroll: int) -> (int, int, int, int, int, Seq<char>) {
    let width = if w - 6 < 20 {
        20
    } else if w - 6 > 72 {
        72
    } else {
        w - 6
    };
    let height = if h - 2 < 0 {
        0
    } else if h - 2 < n + 2 {
        h - 2
    } else {
        n + 2
    };
    let content = if height < 2 {
        0
    } else {
        height - 2
    };
    let max_scroll = if n < content {
        0
    } else {
        n - content
    };
    let s = if scroll < max_scroll {
        scroll
    } else {
        max_scroll
    };
    let last = if s + content < n {
        s + content
    } else {
        n
    };
    let title = if max_scroll > 0 {
        " Help ("@ + decimal((s + 1) as nat) + "-"@ + decimal(last as nat) + "/"@ + decimal(n as nat) + ") "@
    } else {
        " Help "@
    };
    ((w - width) / 2, (h - height) / 2, width, height, s, title)
}

pub fn help_frame(w: u16, h: u16, n: usize, scroll: usize) -> (r: HelpFrame)
    requires
        w >= 20,
        n + 2 <= u16::MAX,
    ensures
        (r.dx as int, r.dy as int, r.width as int, r.height as int, r.scroll as int, r.title@) == help_frame_spec(
            w as int,
            h as int,
            n as int,
            scroll as int,
        ),
{
    let width: u16 = if w < 26 {
        20
    } else if w - 6 > 72 {
        72
    } else {
        w - 6
    };
    let lines = n as u16;
    let room = h.saturating_sub(2);
    let height: u16 = if room < lines + 2 {
        room
    } else {
        lines + 2
    };
    let content = height.saturating_sub(2) as usize;
    let max_scroll = n.saturating_sub(content);
    let s = if scroll < max_scroll {
        scroll
    } else {
        max_scroll
    };
    let title = if max_scroll > 0 {
        let last = if s + content < n {
            s + content
        } else {
            n
        };
        let mut t = owned(" Help (");
        push_decimal(&mut t, (s + 1) as u64);
        push_str(&mut t, "-");
        push_decimal(&mut t, last as u64);
        push_str(&mut t, "/");
        push_decimal(&mut t, n as u64);
        push_str(&mut t, ") ");
        t
    } else {
        owned(" Help ")
    };
    HelpFrame { dx: (w - width) / 2, dy: (h - height) / 2, width, height, scroll: s, title }
}

} // verus!
