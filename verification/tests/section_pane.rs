use rugit::keymap::PaneKind;
use rugit::ui::pane::{match_mask, Pane};
use rugit::ui::section::{flatten, Group, Line, Section, SectionValue};

fn tree() -> Section {
    let mut root = Section::root();
    let mut a = Section::new(0, "a", SectionValue::Group(Group::Unstaged), Line::raw("A"));
    a.push_body(Line::raw("a1"));
    let mut b = Section::new(a.id, "b", SectionValue::Text, Line::raw("B"));
    b.push_body(Line::raw("b1"));
    b.push_body(Line::raw("b2"));
    a.children.push(b);
    root.children.push(a);
    root.children.push(Section::new(0, "c", SectionValue::Text, Line::raw("C")));
    root
}

fn texts(root: &Section) -> Vec<String> {
    flatten(root).iter().map(|f| f.line.text()).collect()
}

#[test]
fn flatten_visits_depth_first_with_spacers() {
    let flat = flatten(&tree());
    let texts: Vec<String> = flat.iter().map(|f| f.line.text()).collect();
    assert_eq!(texts, vec!["A", "a1", "B", "b1", "b2", "", "C"]);
    assert!(flat[0].is_heading);
    assert_eq!(flat[2].path, vec![0, 0]);
    assert_eq!(flat[4].body_idx, Some(1));
}

#[test]
fn compact_root_omits_inter_child_spacers() {
    let mut t = tree();
    t.compact = true;
    assert_eq!(texts(&t), vec!["A", "a1", "B", "b1", "b2", "C"]);
}

#[test]
fn collapse_hides_descendants() {
    let mut t = tree();
    t.children[0].collapsed = true;
    assert_eq!(texts(&t), vec!["A", "", "C"]);
}

#[test]
fn collapse_state_survives_rebuild() {
    let mut old = tree();
    old.children[0].children[0].collapsed = true;
    let mut new = tree();
    new.inherit_collapse(&old);
    assert!(new.children[0].children[0].collapsed);
}

#[test]
fn root_body_comes_first_with_a_spacer() {
    let mut t = tree();
    t.push_body(Line::raw("Head: main"));
    let flat = flatten(&t);
    assert_eq!(flat[0].line.text(), "Head: main");
    assert!(flat[0].path.is_empty());
    assert_eq!(flat[1].line.text(), "");
    assert_eq!(flat[2].line.text(), "A");
}

#[test]
fn at_path_resolves_child_indices() {
    let t = tree();
    assert_eq!(t.at_path(&[0, 0]).unwrap().heading.text(), "B");
    assert!(t.at_path(&[0, 1]).is_none());
    assert!(t.at_path(&[]).is_some());
    assert!(t.children[0].is_foldable());
    assert!(!t.children[1].is_foldable());
}

#[test]
fn at_path_mut_writes_through_to_the_tree() {
    let mut t = tree();
    t.at_path_mut(&[0, 0]).unwrap().collapsed = true;
    assert!(t.children[0].children[0].collapsed);
    assert!(!t.children[0].collapsed);
    assert_eq!(texts(&t), vec!["A", "a1", "B", "", "C"]);
    assert!(t.at_path_mut(&[1, 0]).is_none());
    assert!(t.at_path_mut(&[2]).is_none());
    assert_eq!(t.at_path_mut(&[]).unwrap().children.len(), 2);
}

fn root_with(names: &[(&str, usize)]) -> Section {
    let mut root = Section::root();
    for (name, body_lines) in names {
        let mut s = Section::new(
            0,
            &format!("s:{name}"),
            SectionValue::Group(Group::Unstaged),
            Line::raw(name),
        );
        for i in 0..*body_lines {
            s.push_body(Line::raw(&format!("{name}.{i}")));
        }
        root.children.push(s);
    }
    root
}

#[test]
fn cursor_survives_refresh_by_identity() {
    let mut pane = Pane::new(PaneKind::Status, "t".into(), root_with(&[("A", 2), ("B", 1)]));
    pane.cursor = 5;
    pane.replace_tree(root_with(&[("X", 3), ("A", 2), ("B", 1)]));
    let cur = pane.current().unwrap();
    assert!(!cur.is_heading);
    assert_eq!(cur.line.text(), "B.0");
}

#[test]
fn cursor_falls_back_to_surviving_ancestor_or_index() {
    let mut pane = Pane::new(PaneKind::Status, "t".into(), root_with(&[("A", 1), ("B", 1)]));
    pane.cursor = 4;
    pane.replace_tree(root_with(&[("A", 1)]));
    assert!(pane.cursor < pane.line_count());
}

#[test]
fn follow_keeps_cursor_within_margin() {
    let mut pane = Pane::new(PaneKind::Status, "t".into(), root_with(&[("A", 30)]));
    pane.cursor = 25;
    pane.follow(10, 3);
    assert!(pane.top <= 25 - 3 && 25 < pane.top + 10);
    pane.cursor = 2;
    pane.follow(10, 3);
    assert_eq!(pane.top, 0);
}

#[test]
fn follow_keeps_every_cursor_on_screen() {
    let mut pane = Pane::new(PaneKind::Status, "t".into(), root_with(&[("A", 30)]));
    let n = pane.line_count();
    for start in [0usize, 7, 29] {
        for c in 0..n {
            pane.top = start;
            pane.cursor = c;
            pane.follow(8, 3);
            assert!(pane.top <= c && c < pane.top + 8);
            if c >= 3 {
                assert!(pane.top + 3 <= c);
            }
            if c + 3 < n {
                assert!(c + 3 < pane.top + 8);
            }
        }
    }
}

#[test]
fn toggle_moves_cursor_to_heading_and_back() {
    let mut pane = Pane::new(PaneKind::Status, "t".into(), root_with(&[("A", 3)]));
    pane.cursor = 2;
    pane.toggle_at_cursor();
    assert_eq!(pane.line_count(), 1);
    assert!(pane.current().unwrap().is_heading);
    pane.toggle_at_cursor();
    assert_eq!(pane.line_count(), 4);
}

#[test]
fn find_matches_is_smart_case() {
    let pane = Pane::new(PaneKind::Status, "t".into(), root_with(&[("Alpha", 2)]));
    assert_eq!(pane.find_matches("alpha"), vec![0, 1, 2]);
    assert_eq!(pane.find_matches("Alpha"), vec![0, 1, 2]);
    assert_eq!(pane.find_matches("ALPHA"), Vec::<usize>::new());
    assert_eq!(pane.find_matches(".1"), vec![2]);
    assert_eq!(pane.find_matches(""), Vec::<usize>::new());
}

#[test]
fn section_navigation() {
    let mut pane = Pane::new(PaneKind::Status, "t".into(), root_with(&[("A", 2), ("B", 0)]));
    pane.next_section();
    assert_eq!(pane.current().unwrap().line.text(), "B");
    pane.prev_section();
    assert_eq!(pane.current().unwrap().line.text(), "A");
    pane.cursor = 2;
    pane.parent_section();
    assert_eq!(pane.current().unwrap().line.text(), "A");
}

#[test]
fn moving_the_cursor_stays_in_the_buffer() {
    let mut pane = Pane::new(PaneKind::Status, "t".into(), root_with(&[("A", 2)]));
    pane.move_cursor(-5);
    assert_eq!(pane.cursor, 0);
    pane.move_cursor(10);
    assert_eq!(pane.cursor, 2);
    pane.goto_top();
    assert_eq!(pane.cursor, 0);
    pane.goto_bottom();
    assert_eq!(pane.cursor, 2);
    assert_eq!(pane.value_at_cursor(), SectionValue::Group(Group::Unstaged));
}

#[test]
fn match_mask_smart_case_and_multiple() {
    let mask = match_mask("foo bar foo", "foo").unwrap();
    let on: Vec<usize> = mask.iter().enumerate().filter(|(_, m)| **m).map(|(i, _)| i).collect();
    assert_eq!(on, vec![0, 1, 2, 8, 9, 10]);
    assert!(match_mask("FOO", "foo").is_some());
    assert!(match_mask("foo", "FOO").is_none());
    assert!(match_mask("short", "longer-query").is_none());
}

use rugit::theme::Color;
use rugit::ui::pane::highlight_query;
use rugit::ui::section::{Span, Style};

fn styled(text: &str, style: Style) -> Span {
    Span { text: text.into(), style }
}

#[test]
fn highlight_query_splits_spans_and_keeps_base_style() {
    let base = Style { fg: Some(Color::Green), ..Style::plain() };
    let line = Line { spans: vec![styled("+hello ", base), styled("world", base)] };
    let hl = Style { bg: Some(Color::Yellow), ..Style::plain() };
    let out = highlight_query(line, "lo wor", hl);
    assert_eq!(out.text(), "+hello world");
    let bgs: Vec<Option<Color>> = out.spans.iter().map(|s| s.style.bg).collect();
    assert_eq!(bgs, vec![None, Some(Color::Yellow), Some(Color::Yellow), None]);
    assert!(out.spans.iter().all(|s| s.style.fg == Some(Color::Green)));
}

#[test]
fn highlight_query_without_match_returns_line_unchanged() {
    let line = Line::raw("nothing here");
    let out = highlight_query(line, "zzz", Style { bg: Some(Color::Yellow), ..Style::plain() });
    assert_eq!(out.spans.len(), 1);
    assert_eq!(out.spans[0].style.bg, None);
}

#[test]
fn highlight_query_multibyte_alignment() {
    let line = Line::raw("日本語 diff 行");
    let out = highlight_query(line, "diff", Style { bg: Some(Color::Yellow), ..Style::plain() });
    let hl_text: String = out
        .spans
        .iter()
        .filter(|s| s.style.bg.is_some())
        .map(|s| s.text.clone())
        .collect();
    assert_eq!(hl_text, "diff");
}
