use rugit::keymap::{KeyCode, KeyModifiers, KeyPress};
use rugit::ui::input::{byte_index, InputResult, InputState};

fn key(code: KeyCode) -> KeyPress {
    KeyPress::new(code, KeyModifiers::none())
}

fn ctrl(c: char) -> KeyPress {
    KeyPress::new(KeyCode::Char(c), KeyModifiers::control())
}

fn type_str(st: &mut InputState, s: &str) {
    for c in s.chars() {
        st.on_key(&key(KeyCode::Char(c)));
    }
}

#[test]
fn plain_input_edit_and_submit() {
    let mut st = InputState::plain("Name");
    type_str(&mut st, "featurex");
    st.on_key(&key(KeyCode::Left));
    st.on_key(&key(KeyCode::Backspace));
    type_str(&mut st, "-");
    assert_eq!(st.text, "featur-x");
    assert_eq!(st.on_key(&key(KeyCode::Enter)), InputResult::Submit("featur-x".into()));
}

#[test]
fn multibyte_editing_is_char_based() {
    let mut st = InputState::plain("Name");
    type_str(&mut st, "日本語");
    st.on_key(&key(KeyCode::Backspace));
    assert_eq!(st.text, "日本");
    st.on_key(&key(KeyCode::Home));
    st.on_key(&key(KeyCode::Delete));
    assert_eq!(st.text, "本");
}

#[test]
fn picker_filters_and_submits_selection() {
    let mut st = InputState::picker(
        "Checkout",
        vec!["main".into(), "develop".into(), "feature/a".into(), "feature/b".into()],
    );
    type_str(&mut st, "feat");
    assert_eq!(st.filtered(), vec!["feature/a", "feature/b"]);
    st.on_key(&key(KeyCode::Down));
    assert_eq!(st.on_key(&key(KeyCode::Enter)), InputResult::Submit("feature/b".into()));
}

#[test]
fn picker_matches_fuzzy_subsequences() {
    let mut st = InputState::picker(
        "Checkout",
        vec!["feature/a".into(), "feature/b".into(), "main".into()],
    );
    type_str(&mut st, "fb");
    assert_eq!(st.filtered(), vec!["feature/b"]);
}

#[test]
fn picker_ranks_better_matches_first() {
    let st = InputState {
        text: "ma".into(),
        ..InputState::picker("Checkout", vec!["dev-map".into(), "main".into(), "master".into()])
    };
    assert_eq!(st.filtered(), vec!["main", "master", "dev-map"]);
}

#[test]
fn picker_empty_text_lists_all_candidates_in_order() {
    let st = InputState::picker(
        "Checkout",
        vec!["main".into(), "develop".into(), "feature/a".into()],
    );
    assert_eq!(st.filtered(), vec!["main", "develop", "feature/a"]);
    assert!(st.matches().iter().all(|(_, _, ix)| ix.is_empty()));
}

#[test]
fn picker_match_indices_are_ascending_char_positions() {
    let st = InputState {
        text: "fb".into(),
        ..InputState::picker("Checkout", vec!["feature/b".into()])
    };
    let matches = st.matches();
    assert!(matches[0].2.windows(2).all(|w| w[0] < w[1]));
}

#[test]
fn picker_match_ignores_case_both_ways() {
    let st = InputState {
        text: "FEAT".into(),
        ..InputState::picker("Checkout", vec!["feature/a".into(), "main".into()])
    };
    assert_eq!(st.filtered(), vec!["feature/a"]);
}

#[test]
fn picker_match_is_case_insensitive_and_multibyte_safe() {
    let st = InputState {
        text: "fa".into(),
        ..InputState::picker("Checkout", vec!["Feature/A".into(), "docs".into()])
    };
    let matches = st.matches();
    assert_eq!(matches.len(), 1);
    assert_eq!(st.candidates[matches[0].0], "Feature/A");
    assert!(!matches[0].2.is_empty());

    let st = InputState {
        text: "本語".into(),
        ..InputState::picker("Checkout", vec!["日本語".into()])
    };
    assert_eq!(st.matches()[0].2, vec![1, 2]);
}

#[test]
fn picker_falls_back_to_typed_text_when_no_match() {
    let mut st = InputState::picker("Checkout", vec!["main".into()]);
    type_str(&mut st, "v1.2.3");
    assert_eq!(st.on_key(&key(KeyCode::Enter)), InputResult::Submit("v1.2.3".into()));
}

#[test]
fn tab_completes_to_selection_and_ctrl_u_clears() {
    let mut st = InputState::picker("Checkout", vec!["main".into(), "master".into()]);
    type_str(&mut st, "mas");
    st.on_key(&key(KeyCode::Tab));
    assert_eq!(st.text, "master");
    st.on_key(&ctrl('u'));
    assert_eq!(st.text, "");
    assert_eq!(st.filtered().len(), 2);
}

#[test]
fn esc_and_ctrl_g_cancel() {
    let mut st = InputState::plain("Name");
    assert_eq!(st.on_key(&key(KeyCode::Esc)), InputResult::Cancel);
    assert_eq!(st.on_key(&ctrl('g')), InputResult::Cancel);
}

#[test]
fn submit_trims_plain_text() {
    let st0 = InputState::plain("Name").with_text("  spaced  ");
    assert_eq!(st0.cursor, 10);
    let mut st = st0;
    assert_eq!(st.on_key(&key(KeyCode::Enter)), InputResult::Submit("spaced".into()));
}

#[test]
fn selection_stays_within_the_matches() {
    let mut st = InputState::picker("Checkout", vec!["a".into(), "b".into()]);
    st.on_key(&key(KeyCode::Up));
    assert_eq!(st.selected, 0);
    st.on_key(&key(KeyCode::Down));
    st.on_key(&key(KeyCode::Down));
    st.on_key(&key(KeyCode::Down));
    assert_eq!(st.selected, 1);
    st.on_key(&ctrl('p'));
    assert_eq!(st.selected, 0);
}

#[test]
fn cursor_moves_within_the_text() {
    let mut st = InputState::plain("x").with_text("ab");
    st.on_key(&key(KeyCode::Right));
    assert_eq!(st.cursor, 2);
    st.on_key(&key(KeyCode::Home));
    assert_eq!(st.cursor, 0);
    st.on_key(&key(KeyCode::Left));
    assert_eq!(st.cursor, 0);
    st.on_key(&key(KeyCode::End));
    assert_eq!(st.cursor, 2);
    assert!(!st.is_picker());
}

#[test]
fn byte_index_counts_utf8_bytes() {
    assert_eq!(byte_index("日本語", 1), 3);
    assert_eq!(byte_index("ab", 1), 1);
    assert_eq!(byte_index("ab", 9), 2);
}

use rugit::theme::Theme;
use rugit::ui::input::highlight_spans;
use rugit::ui::section::Style;

#[test]
fn highlight_spans_groups_matched_runs() {
    let t = Theme::default();
    let spans = highlight_spans("feature/a", &[0, 1, 8], Style::plain(), t.picker_match);
    let texts: Vec<&str> = spans.iter().map(|s| s.text.as_str()).collect();
    assert_eq!(texts, vec!["fe", "ature/", "a"]);
    assert_eq!(spans[0].style.fg, Some(t.picker_match));
    assert_eq!(spans[1].style.fg, None);
    assert_eq!(spans[2].style.fg, Some(t.picker_match));
}

#[test]
fn picker_input_line_shows_filtered_and_total_counts() {
    let mut st = InputState::picker(
        "Checkout",
        vec!["main".into(), "develop".into(), "feature/a".into(), "feature/b".into()],
    );
    type_str(&mut st, "feat");
    let lines = st.render_lines(&Theme::default(), 10);
    let input_line = lines.last().unwrap().text();
    assert!(input_line.ends_with("2/4"), "got {input_line:?}");
}

#[test]
fn picker_without_match_says_so_and_marks_the_selection() {
    let t = Theme::default();
    let mut st = InputState::picker("Checkout", vec!["main".into()]);
    let lines = st.render_lines(&t, 10);
    assert_eq!(lines.len(), 2);
    assert!(lines[0].text().starts_with("▸ "));
    type_str(&mut st, "zzz");
    let lines = st.render_lines(&t, 10);
    assert_eq!(lines[0].text(), "  (no match — RET uses the typed text)");
    assert_eq!(lines[1].text(), "> zzz   0/1");
}
