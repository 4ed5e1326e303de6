//! The status bar: a pending confirmation's prompt, or the buffer's title
//! with the running job or the last message on the left and, on the right,
//! the keys typed so far or the active search with its match count.

use vstd::prelude::*;

use crate::keymap::{format_keys, format_keys_spec, KeyPress};
use crate::ops::{cat, cat3, owned};
use crate::text::{decimal, push_decimal, push_str};
use crate::theme::Theme;
use crate::ui::section::{Line, LineView, Span, Style};

verus! {

/// The bar's content: the confirmation line, or the left line and the
/// right-hand text.
#[derive(Debug)]
pub enum Bar {
    Confirm(Line),
    Normal(Line, String),
}

pub enum BarView {
    Confirm(LineView),
    Normal(LineView, Seq<char>),
}

impl View for Bar {
    type V = BarView;

    open spec fn view(&self) -> BarView {
        match self {
            Bar::Confirm(l) => BarView::Confirm(l@),
            Bar::Normal(l, r) => BarView::Normal(l@, r@),
        }
    }
}

pub open spec fn styled(fg: Option<crate::theme::Color>, bold: bool) -> Style {
    Style { fg, bg: None, bold, dim: false, reversed: false, crossed_out: false }
}

pub open spec fn bar_spec(
    confirm: Option<Seq<char>>,
    title: Seq<char>,
    busy: Option<Seq<char>>,
    message: Option<Seq<char>>,
    pending: Seq<KeyPress>,
    search: Option<(Seq<char>, usize)>,
    t: Theme,
) -> BarView {
    match confirm {
        Some(p) => BarView::Confirm(seq![(p, styled(Some(t.warning), true)), (" (y/n)"@, styled(Some(t.warning), false))]),
        None => {
            let left = seq![(" "@ + title + " "@, styled(None, true))] + match busy {
                Some(b) => seq![("  "@ + b + "\u{2026}"@, styled(Some(t.warning), false))],
                None => match message {
                    Some(m) => seq![("  "@ + m, styled(Some(t.message), false))],
                    None => Seq::empty(),
                },
            };
            let right = if pending.len() > 0 {
                format_keys_spec(pending) + " "@
            } else {
                match search {
                    Some((q, n)) => "/"@ + q + " ("@ + decimal(n as nat) + ") "@,
                    None => Seq::empty(),
                }
            };
            BarView::Normal(left, right)
        },
    }
}

fn span_of(text: String, style: Style) -> (r: Span)
    ensures
        r.text@ == text@,
        r.style == style,
{
    Span { text, style }
}

pub fn status_bar(
    confirm: Option<&str>,
    title: &str,
    busy: Option<&str>,
    message: Option<&str>,
    pending: &[KeyPress],
    search: Option<(&str, usize)>,
    t: &Theme,
) -> (r: Bar)
    ensures
        r@ == bar_spec(
            match confirm {
                Some(p) => Some(p@),
                None => None,
            },
            title@,
            match busy {
                Some(b) => Some(b@),
                None => None,
            },
            match message {
                Some(m) => Some(m@),
                None => None,
            },
            pending@,
            match search {
                Some((q, n)) => Some((q@, n)),
                None => None,
            },
            *t,
        ),
{
    if let Some(p) = confirm {
        let mut spans: Vec<Span> = Vec::new();
        spans.push(span_of(owned(p), Style { fg: Some(t.warning), bg: None, bold: true, dim: false, reversed: false, crossed_out: false }));
        spans.push(span_of(owned(" (y/n)"), Style { fg: Some(t.warning), bg: None, bold: false, dim: false, reversed: false, crossed_out: false }));
        let l = Line { spans };
        assert(l@ =~= seq![(p@, styled(Some(t.warning), true)), (" (y/n)"@, styled(Some(t.warning), false))]);
        return Bar::Confirm(l);
    }
    let mut spans: Vec<Span> = Vec::new();
    spans.push(span_of(cat3(" ", title, " "), Style { fg: None, bg: None, bold: true, dim: false, reversed: false, crossed_out: false }));
    match busy {
        Some(b) => {
            spans.push(span_of(cat3("  ", b, "\u{2026}"), Style { fg: Some(t.warning), bg: None, bold: false, dim: false, reversed: false, crossed_out: false }));
        },
        None => match message {
            Some(m) => {
                spans.push(span_of(cat("  ", m), Style { fg: Some(t.message), bg: None, bold: false, dim: false, reversed: false, crossed_out: false }));
            },
            None => {},
        },
    }
    let left = Line { spans };
    let right = if pending.len() > 0 {
        let k = format_keys(pending);
        cat(k.as_str(), " ")
    } else {
        match search {
            Some((q, n)) => {
                let mut r = cat3("/", q, " (");
                push_decimal(&mut r, n as u64);
                push_str(&mut r, ") ");
                r
            },
            None => String::new(),
        }
    };
    let ghost want = bar_spec(
        None,
        title@,
        match busy {
            Some(b) => Some(b@),
            None => None,
        },
        match message {
            Some(m) => Some(m@),
            None => None,
        },
        pending@,
        match search {
            Some((q, n)) => Some((q@, n)),
            None => None,
        },
        *t,
    );
    assert(want matches BarView::Normal(wl, wr) && left@ =~= wl && right@ =~= wr);
    Bar::Normal(left, right)
}

} // verus!
