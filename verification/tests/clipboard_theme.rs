use rugit::clipboard::{base64_encode, osc52_sequence, ClipboardCopy, ClipboardStep, ToolOutcome};
use rugit::theme::{Color, Theme};

#[test]
fn base64_matches_known_vectors() {
    assert_eq!(base64_encode(b""), "");
    assert_eq!(base64_encode(b"f"), "Zg==");
    assert_eq!(base64_encode(b"fo"), "Zm8=");
    assert_eq!(base64_encode(b"foo"), "Zm9v");
    assert_eq!(base64_encode(b"foob"), "Zm9vYg==");
    assert_eq!(base64_encode(b"fooba"), "Zm9vYmE=");
    assert_eq!(base64_encode(b"foobar"), "Zm9vYmFy");
}

#[test]
fn osc52_wraps_the_base64_text() {
    assert_eq!(osc52_sequence(b"hi"), "\x1b]52;c;aGk=\x07");
}

#[test]
fn clipboard_tries_tools_in_order_then_osc52() {
    let mut c = ClipboardCopy::new();
    let mut bins = Vec::new();
    loop {
        match c.next_step(b"x") {
            ClipboardStep::Run(bin, _) => {
                bins.push(bin);
                assert!(!c.record(ToolOutcome::NotInstalled));
            }
            ClipboardStep::Osc52(s) => {
                assert_eq!(s, "\x1b]52;c;eA==\x07");
                break;
            }
            other => panic!("unexpected: {other:?}"),
        }
    }
    assert_eq!(bins, vec!["wl-copy", "xclip", "xsel", "pbcopy"]);
}

#[test]
fn clipboard_reports_a_failed_tool_and_stops_on_success() {
    let mut c = ClipboardCopy::new();
    assert!(!c.record(ToolOutcome::Failed("wl-copy exited with 1".into())));
    assert!(c.record(ToolOutcome::Copied));
    let mut c = ClipboardCopy::new();
    c.record(ToolOutcome::Failed("boom".into()));
    c.record(ToolOutcome::NotInstalled);
    c.record(ToolOutcome::NotInstalled);
    c.record(ToolOutcome::NotInstalled);
    match c.next_step(b"x") {
        ClipboardStep::Fail(e) => assert_eq!(e, "boom"),
        other => panic!("unexpected: {other:?}"),
    }
}

#[test]
fn set_accepts_names_hex_and_indexed() {
    let mut t = Theme::default();
    t.set("diff-add", "blue").unwrap();
    assert_eq!(t.diff_add, Color::Blue);
    t.set("cursor-bg", "#3a3a3a").unwrap();
    assert_eq!(t.cursor_bg, Color::Rgb(0x3a, 0x3a, 0x3a));
    t.set("key", "42").unwrap();
    assert_eq!(t.key, Color::Indexed(42));
}

#[test]
fn set_rejects_unknown_key_and_bad_color() {
    let mut t = Theme::default();
    assert!(t.set("no-such-role", "red").is_err());
    assert!(t.set("diff-add", "not-a-color").is_err());
}

#[test]
fn set_messages_name_the_problem() {
    let mut t = Theme::default();
    assert_eq!(t.set("no-such-role", "red").unwrap_err(), "colors: unknown key \"no-such-role\"");
    assert_eq!(
        t.set("diff-add", "bogus").unwrap_err(),
        "colors: invalid color \"bogus\" for \"diff-add\""
    );
    // A bad color is reported even for an unknown key.
    assert!(t.set("nope", "bogus").unwrap_err().starts_with("colors: invalid color"));
}

#[test]
fn set_accepts_ratatui_spellings() {
    let mut t = Theme::default();
    t.set("error", "Bright Red").unwrap();
    assert_eq!(t.error, Color::LightRed);
    t.set("bar-bg", "grey").unwrap();
    assert_eq!(t.bar_bg, Color::Gray);
    t.set("hash", "reset").unwrap();
    assert_eq!(t.hash, Color::Reset);
}

#[test]
fn default_theme_colors() {
    let t = Theme::default();
    assert_eq!(t.section_heading, Color::Cyan);
    assert_eq!(t.cursor_bg, Color::DarkGray);
    assert_eq!(t.picker_selected_fg, Color::Reset);
}
