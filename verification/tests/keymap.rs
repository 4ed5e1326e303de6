use rugit::command::{by_name, info, Command, Menu, NavCmd, TodoCmd};
use rugit::config::{apply_colors, apply_keys, Config};
use rugit::keymap::{
    default_keymaps, format_key, format_keys, normalize, parse_keys, KeyCode, KeyModifiers,
    KeyPress, Keymap, Keymaps, Lookup, PaneKind,
};
use rugit::theme::{Color, Theme};

#[test]
fn parse_and_format_roundtrip() {
    for spec in ["C-d", "P p", "S-TAB", "RET", "M-x", "SPC", "$", "?"] {
        let seq = parse_keys(spec).unwrap();
        assert_eq!(format_keys(&seq), spec, "roundtrip of {spec:?}");
    }
}

#[test]
fn sequence_lookup() {
    let mut km = Keymap::new();
    km.bind("P p", Command::Transient(Menu::Push));
    km.bind("g", Command::Refresh);
    let p = parse_keys("P").unwrap();
    assert_eq!(km.lookup(&p), Lookup::Pending);
    let pp = parse_keys("P p").unwrap();
    assert_eq!(km.lookup(&pp), Lookup::Command(Command::Transient(Menu::Push)));
    let px = parse_keys("P x").unwrap();
    assert_eq!(km.lookup(&px), Lookup::Unbound);
    assert_eq!(km.candidates(&p), vec![("p".to_string(), "push".to_string())]);
}

#[test]
fn rebinding_a_prefix_replaces_it() {
    let mut km = Keymap::new();
    km.bind("P", Command::Refresh);
    km.bind("P p", Command::Transient(Menu::Push));
    assert_eq!(
        km.lookup(&parse_keys("P p").unwrap()),
        Lookup::Command(Command::Transient(Menu::Push))
    );
}

#[test]
fn rebinding_a_leaf_over_a_prefix_replaces_the_subtree() {
    let mut km = Keymap::new();
    km.bind("P p", Command::Transient(Menu::Push));
    km.bind("P", Command::Refresh);
    assert_eq!(km.lookup(&parse_keys("P").unwrap()), Lookup::Command(Command::Refresh));
    assert_eq!(km.lookup(&parse_keys("P p").unwrap()), Lookup::Unbound);
}

#[test]
fn local_shadows_global() {
    let kms = default_keymaps();
    let s = parse_keys("s").unwrap();
    assert_eq!(kms.lookup(PaneKind::Status, &s), Lookup::Command(Command::Stage));
    assert_eq!(kms.lookup(PaneKind::Revision, &s), Lookup::Unbound);
}

#[test]
fn rebase_todo_keys_shadow_global_only_in_that_buffer() {
    let kms = default_keymaps();
    let d = parse_keys("d").unwrap();
    assert_eq!(
        kms.lookup(PaneKind::RebaseTodo, &d),
        Lookup::Command(Command::Todo(TodoCmd::Drop))
    );
    assert_eq!(kms.lookup(PaneKind::Status, &d), Lookup::Unbound);
    let confirm = parse_keys("C-c C-c").unwrap();
    assert_eq!(
        kms.lookup(PaneKind::RebaseTodo, &confirm),
        Lookup::Command(Command::Todo(TodoCmd::Confirm))
    );
    assert_eq!(
        kms.lookup(PaneKind::RebaseTodo, &parse_keys("k").unwrap()),
        Lookup::Command(Command::Nav(NavCmd::MoveUp))
    );
    assert_eq!(
        kms.lookup(PaneKind::RebaseTodo, &parse_keys("M-k").unwrap()),
        Lookup::Command(Command::Todo(TodoCmd::MoveUp))
    );
}

#[test]
fn normalize_strips_shift_from_chars() {
    let kp = normalize(KeyCode::Char('P'), KeyModifiers::shift());
    assert_eq!(kp, KeyPress::new(KeyCode::Char('P'), KeyModifiers::none()));
}

#[test]
fn normalize_lowercases_control_chars_and_folds_backtab() {
    let kp = normalize(KeyCode::Char('D'), KeyModifiers { ctrl: true, alt: false, shift: true });
    assert_eq!(kp, KeyPress::new(KeyCode::Char('d'), KeyModifiers::control()));
    let kp = normalize(KeyCode::BackTab, KeyModifiers::shift());
    assert_eq!(kp, KeyPress::new(KeyCode::BackTab, KeyModifiers::none()));
}

#[test]
fn parse_rejects_bad_tokens() {
    assert_eq!(parse_keys("C-").unwrap_err(), "invalid key: \"C-\"");
    assert!(parse_keys("ab").is_err());
    assert!(parse_keys("x FOO").is_err());
}

#[test]
fn parse_shift_tab_is_backtab() {
    let seq = parse_keys("S-TAB").unwrap();
    assert_eq!(seq, vec![KeyPress::new(KeyCode::BackTab, KeyModifiers::none())]);
    assert_eq!(format_key(&seq[0]), "S-TAB");
}

#[test]
fn empty_sequence_is_pending() {
    let kms = default_keymaps();
    assert_eq!(kms.lookup(PaneKind::Log, &[]), Lookup::Pending);
}

#[test]
fn global_prefix_candidates_are_sorted() {
    let kms = default_keymaps();
    let g = parse_keys("g").unwrap();
    let c = kms.candidates(PaneKind::Status, &g);
    assert_eq!(
        c,
        vec![
            ("g".to_string(), "goto-top".to_string()),
            ("h".to_string(), "parent-section".to_string()),
            ("j".to_string(), "next-section".to_string()),
            ("k".to_string(), "prev-section".to_string()),
            ("r".to_string(), "refresh".to_string()),
        ]
    );
}

#[test]
fn candidates_mark_prefixes() {
    let mut km = Keymap::new();
    km.bind("C-c C-c", Command::Todo(TodoCmd::Confirm));
    km.bind("q", Command::Quit);
    assert_eq!(
        km.candidates(&[]),
        vec![
            ("C-c".to_string(), "+prefix".to_string()),
            ("q".to_string(), "quit".to_string()),
        ]
    );
}

#[test]
fn bindings_are_sorted_by_notation() {
    let mut km = Keymap::new();
    km.bind("q", Command::Quit);
    km.bind("g r", Command::Refresh);
    km.bind("C-d", Command::Nav(NavCmd::HalfPageDown));
    assert_eq!(
        km.bindings(),
        vec![
            ("C-d".to_string(), Command::Nav(NavCmd::HalfPageDown)),
            ("g r".to_string(), Command::Refresh),
            ("q".to_string(), Command::Quit),
        ]
    );
}

#[test]
fn command_names_round_trip() {
    for info in rugit::command::commands() {
        assert_eq!(by_name(info.name), Some(info.cmd));
    }
    assert_eq!(info(Command::Quit).name, "quit");
    assert_eq!(by_name("no-such-command"), None);
}

#[test]
fn config_keys_merge_over_defaults_with_warnings() {
    let mut kms = default_keymaps();
    let mut cfg = Config::default();
    cfg.keys.global.push(("g".into(), "refresh".into()));
    cfg.keys.status.push(("z z".into(), "stage".into()));
    cfg.keys.rebase_todo.push(("x".into(), "nope".into()));
    cfg.keys.global.push(("C-".into(), "quit".into()));
    let mut warnings = Vec::new();
    apply_keys(&cfg, &mut kms, &mut warnings);
    assert_eq!(
        kms.lookup(PaneKind::Log, &parse_keys("g").unwrap()),
        Lookup::Command(Command::Refresh)
    );
    assert_eq!(
        kms.lookup(PaneKind::Status, &parse_keys("z z").unwrap()),
        Lookup::Command(Command::Stage)
    );
    assert_eq!(
        warnings,
        vec![
            "config: invalid key: \"C-\"".to_string(),
            "config: unknown command \"nope\"".to_string(),
        ]
    );
}

#[test]
fn config_colors_apply_and_warn() {
    let mut t = Theme::default();
    let mut cfg = Config::default();
    cfg.colors.push(("diff-add".into(), "green".into()));
    cfg.colors.push(("nope".into(), "red".into()));
    let mut warnings = Vec::new();
    apply_colors(&cfg, &mut t, &mut warnings);
    assert_eq!(t.diff_add, Color::Green);
    assert_eq!(warnings, vec!["colors: unknown key \"nope\"".to_string()]);
}

#[test]
fn keymaps_new_is_empty() {
    let kms = Keymaps::new();
    assert_eq!(kms.lookup(PaneKind::Status, &parse_keys("q").unwrap()), Lookup::Unbound);
}

#[test]
fn notation_reads_back_what_it_writes() {
    let m = |ctrl: bool, alt: bool, shift: bool| KeyModifiers { ctrl, alt, shift };
    let keys = vec![
        KeyPress::new(KeyCode::Char('x'), m(true, true, false)),
        KeyPress::new(KeyCode::Char('C'), m(true, false, false)),
        KeyPress::new(KeyCode::Char('-'), m(false, false, false)),
        KeyPress::new(KeyCode::Char(' '), m(false, true, false)),
        KeyPress::new(KeyCode::Char('a'), m(false, false, true)),
        KeyPress::new(KeyCode::BackTab, m(true, false, false)),
        KeyPress::new(KeyCode::Tab, m(false, false, false)),
        KeyPress::new(KeyCode::PageDown, m(false, true, true)),
        KeyPress::new(KeyCode::End, m(false, false, false)),
        KeyPress::new(KeyCode::Delete, m(true, true, true)),
    ];
    let text = format_keys(&keys);
    assert_eq!(text, "C-M-x C-C - M-SPC S-a C-S-TAB TAB M-S-PGDN END C-M-S-DEL");
    assert_eq!(parse_keys(&text).unwrap(), keys);
}

#[test]
fn every_command_is_found_by_its_own_name() {
    for c in rugit::command::commands() {
        assert_eq!(by_name(c.name), Some(c.cmd));
    }
    assert_eq!(by_name("stage"), Some(Command::Stage));
    assert_eq!(by_name("no-such-command"), None);
}

#[test]
fn every_bad_color_entry_warns_and_the_rest_still_apply() {
    let mut t = Theme::default();
    let mut cfg = Config::default();
    cfg.colors.push(("diff-add".into(), "not-a-color".into()));
    cfg.colors.push(("nope".into(), "red".into()));
    cfg.colors.push(("diff-add".into(), "green".into()));
    cfg.colors.push(("diff-add".into(), "blue".into()));
    let mut warnings = vec!["earlier".to_string()];
    apply_colors(&cfg, &mut t, &mut warnings);
    assert_eq!(t.diff_add, Color::Blue);
    assert_eq!(warnings.len(), 3);
    assert_eq!(warnings[0], "earlier");
    assert_eq!(warnings[2], "colors: unknown key \"nope\"");
}
