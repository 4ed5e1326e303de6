//! Color scheme. Every color the UI uses is a named role on `Theme`, so the
//! whole look is overridable from `[colors]` in config.toml. Values accept
//! ratatui's color syntax: names ("red", "lightblue"), hex ("#3a3a3a"), and
//! 256-color indexes ("42").

use std::str::FromStr;

use vstd::prelude::*;

use crate::text::{chars_of, debug_quoted, push_str, str_debug};

verus! {

/// A terminal color, as ratatui names them.
#[derive(Debug, Clone, Copy, PartialEq, Eq, Structural)]
pub enum Color {
    Reset,
    Black,
    Red,
    Green,
    Yellow,
    Blue,
    Magenta,
    Cyan,
    Gray,
    DarkGray,
    LightRed,
    LightGreen,
    LightYellow,
    LightBlue,
    LightMagenta,
    LightCyan,
    White,
    Rgb(u8, u8, u8),
    Indexed(u8),
}

/// How ratatui writes the color that `value` parses to (`Color::from_str`,
/// then `Display`); `None` when it does not parse.
pub uninterp spec fn parsed_color(value: Seq<char>) -> Option<Seq<char>>;

/// The forms ratatui's `Display` writes a color in: its name, `#RRGGBB` in
/// upper-case hex, or the 256-color index in decimal.
pub open spec fn display_form(t: Seq<char>) -> bool {
    color_name(t) is Some || hex_form(t) || index_form(t)
}

pub open spec fn is_upper_hex(c: char) -> bool {
    ('0' <= c && c <= '9') || ('A' <= c && c <= 'F')
}

pub open spec fn hex_value(c: char) -> nat {
    if '0' <= c && c <= '9' {
        ((c as nat) - ('0' as nat)) as nat
    } else {
        ((c as nat) - ('A' as nat) + 10) as nat
    }
}

pub open spec fn hex_form(t: Seq<char>) -> bool {
    t.len() == 7 && t[0] == '#' && forall|i: int| 1 <= i < 7 ==> is_upper_hex(#[trigger] t[i])
}

pub open spec fn index_form(t: Seq<char>) -> bool {
    crate::text::parse_u32(t) matches Some(n) && n <= 255
}

/// ratatui's `Color::from_str` followed by its `Display`: the contract
/// claims that the text is a function of `value` (named `parsed_color`) and
/// that it is in one of the forms `Display` writes (its source shows each).
#[verifier::external_body]
fn parse_color_text(value: &str) -> (r: Option<String>)
    ensures
        match r {
            Some(t) => parsed_color(value@) == Some(t@) && display_form(t@),
            None => parsed_color(value@) is None,
        },
{
    match ratatui::style::Color::from_str(value) {
        Ok(c) => Some(c.to_string()),
        Err(_) => None,
    }
}

/// The named color `t` spells, as `Display` writes it.
pub open spec fn color_name(t: Seq<char>) -> Option<Color> {
    if t == "Reset"@ {
        Some(Color::Reset)
    }     else if t == "Black"@ {
        Some(Color::Black)
    }     else if t == "Red"@ {
        Some(Color::Red)
    }     else if t == "Green"@ {
        Some(Color::Green)
    }     else if t == "Yellow"@ {
        Some(Color::Yellow)
    }     else if t == "Blue"@ {
        Some(Color::Blue)
    }     else if t == "Magenta"@ {
        Some(Color::Magenta)
    }     else if t == "Cyan"@ {
        Some(Color::Cyan)
    }     else if t == "Gray"@ {
        Some(Color::Gray)
    }     else if t == "DarkGray"@ {
        Some(Color::DarkGray)
    }     else if t == "LightRed"@ {
        Some(Color::LightRed)
    }     else if t == "LightGreen"@ {
        Some(Color::LightGreen)
    }     else if t == "LightYellow"@ {
        Some(Color::LightYellow)
    }     else if t == "LightBlue"@ {
        Some(Color::LightBlue)
    }     else if t == "LightMagenta"@ {
        Some(Color::LightMagenta)
    }     else if t == "LightCyan"@ {
        Some(Color::LightCyan)
    }     else if t == "White"@ {
        Some(Color::White)
    } else {
        None
    }
}

/// The color a display form stands for.
pub open spec fn color_of_display(t: Seq<char>) -> Color {
    match color_name(t) {
        Some(c) => c,
        None => if hex_form(t) {
            Color::Rgb(
                (hex_value(t[1]) * 16 + hex_value(t[2])) as u8,
                (hex_value(t[3]) * 16 + hex_value(t[4])) as u8,
                (hex_value(t[5]) * 16 + hex_value(t[6])) as u8,
            )
        } else {
            Color::Indexed(crate::text::parse_u32(t)->0 as u8)
        },
    }
}

fn name_is(t: &Vec<char>, name: &str) -> (r: bool)
    ensures
        r == (t@ == name@),
{
    let n = chars_of(name);
    crate::text::eq_chars(t, &n)
}

fn color_name_exec(t: &Vec<char>) -> (r: Option<Color>)
    ensures
        r == color_name(t@),
{
    if name_is(t, "Reset") {
        Some(Color::Reset)
    }     else if name_is(t, "Black") {
        Some(Color::Black)
    }     else if name_is(t, "Red") {
        Some(Color::Red)
    }     else if name_is(t, "Green") {
        Some(Color::Green)
    }     else if name_is(t, "Yellow") {
        Some(Color::Yellow)
    }     else if name_is(t, "Blue") {
        Some(Color::Blue)
    }     else if name_is(t, "Magenta") {
        Some(Color::Magenta)
    }     else if name_is(t, "Cyan") {
        Some(Color::Cyan)
    }     else if name_is(t, "Gray") {
        Some(Color::Gray)
    }     else if name_is(t, "DarkGray") {
        Some(Color::DarkGray)
    }     else if name_is(t, "LightRed") {
        Some(Color::LightRed)
    }     else if name_is(t, "LightGreen") {
        Some(Color::LightGreen)
    }     else if name_is(t, "LightYellow") {
        Some(Color::LightYellow)
    }     else if name_is(t, "LightBlue") {
        Some(Color::LightBlue)
    }     else if name_is(t, "LightMagenta") {
        Some(Color::LightMagenta)
    }     else if name_is(t, "LightCyan") {
        Some(Color::LightCyan)
    }     else if name_is(t, "White") {
        Some(Color::White)
    } else {
        None
    }
}

fn hex_digit(c: char) -> (r: u8)
    requires
        is_upper_hex(c),
    ensures
        r == hex_value(c),
{
    if '0' <= c && c <= '9' {
        ((c as u32) - ('0' as u32)) as u8
    } else {
        ((c as u32) - ('A' as u32) + 10) as u8
    }
}

fn hex_byte(a: char, b: char) -> (r: u8)
    requires
        is_upper_hex(a),
        is_upper_hex(b),
    ensures
        r == hex_value(a) * 16 + hex_value(b),
{
    let x = hex_digit(a);
    let y = hex_digit(b);
    x * 16 + y
}

/// The color ratatui's `Display` wrote as `t`.
fn color_from_display(t: &Vec<char>) -> (r: Color)
    requires
        display_form(t@),
    ensures
        r == color_of_display(t@),
{
    match color_name_exec(t) {
        Some(c) => c,
        None => {
            if t.len() == 7 && t[0] == '#' && is_upper_hex_exec(t[1]) && is_upper_hex_exec(t[2])
                && is_upper_hex_exec(t[3]) && is_upper_hex_exec(t[4]) && is_upper_hex_exec(t[5])
                && is_upper_hex_exec(t[6]) {
                assert(hex_form(t@));
                Color::Rgb(hex_byte(t[1], t[2]), hex_byte(t[3], t[4]), hex_byte(t[5], t[6]))
            } else {
                assert(!hex_form(t@)) by {
                    if hex_form(t@) {
                        assert(is_upper_hex(t@[1]) && is_upper_hex(t@[2]) && is_upper_hex(t@[3]));
                        assert(is_upper_hex(t@[4]) && is_upper_hex(t@[5]) && is_upper_hex(t@[6]));
                    }
                }
                let n = crate::text::parse_u32_exec(t);
                match n {
                    Some(v) => Color::Indexed(v as u8),
                    None => Color::Reset,
                }
            }
        },
    }
}

fn is_upper_hex_exec(c: char) -> (r: bool)
    ensures
        r == is_upper_hex(c),
{
    ('0' <= c && c <= '9') || ('A' <= c && c <= 'F')
}

/// The config keys of the roles, in the order of `Theme`'s fields.
pub open spec fn role_keys() -> Seq<Seq<char>> {
    seq![
        "section-heading"@,
        "header-bg"@,
        "header-fg"@,
        "branch"@,
        "branch-remote"@,
        "tag"@,
        "upstream"@,
        "repo-state"@,
        "untracked"@,
        "conflict"@,
        "file-status"@,
        "hash"@,
        "log-author"@,
        "log-date"@,
        "todo-action"@,
        "hunk-header"@,
        "diff-add"@,
        "diff-remove"@,
        "cursor-bg"@,
        "search-match-bg"@,
        "search-match-fg"@,
        "bar-bg"@,
        "bar-fg"@,
        "message"@,
        "warning"@,
        "error"@,
        "success"@,
        "key"@,
        "input-prompt"@,
        "picker-match"@,
        "picker-marker"@,
        "picker-selected-bg"@,
        "picker-selected-fg"@,
        "picker-count"@,
        "menu-title"@,
        "command"@,
        "help-border"@,
    ]
}

/// Every color the UI uses, by role.
#[derive(Debug, Clone, Copy)]
pub struct Theme {
    // Sections
    /// group titles
    pub section_heading: Color,
    /// log header bar background
    pub header_bg: Color,
    /// log header bar text
    pub header_fg: Color,
    /// local branch / HEAD in log
    pub branch: Color,
    /// remote-tracking ref in log
    pub branch_remote: Color,
    /// tag ref in log
    pub tag: Color,
    pub upstream: Color,
    /// "merging" etc.
    pub repo_state: Color,
    pub untracked: Color,
    pub conflict: Color,
    /// "modified" prefix
    pub file_status: Color,
    /// commit / stash ids
    pub hash: Color,
    /// log margin author
    pub log_author: Color,
    /// log margin date
    pub log_date: Color,
    /// rebase todo verbs
    pub todo_action: Color,
    // Diffs
    pub hunk_header: Color,
    pub diff_add: Color,
    pub diff_remove: Color,
    // Chrome
    pub cursor_bg: Color,
    /// bg of matched text
    pub search_match_bg: Color,
    /// fg of matched text
    pub search_match_fg: Color,
    pub bar_bg: Color,
    pub bar_fg: Color,
    pub message: Color,
    /// busy indicator, confirm
    pub warning: Color,
    pub error: Color,
    pub success: Color,
    // Menus (transient / which-key / help)
    pub key: Color,
    /// minibuffer "> "
    pub input_prompt: Color,
    /// fuzzy-matched chars
    pub picker_match: Color,
    /// "▸" on the selection
    pub picker_marker: Color,
    pub picker_selected_bg: Color,
    pub picker_selected_fg: Color,
    /// "12/45" hint
    pub picker_count: Color,
    pub menu_title: Color,
    /// command names in help
    pub command: Color,
    pub help_border: Color,
}

impl View for Theme {
    type V = Seq<Color>;

    open spec fn view(&self) -> Seq<Color> {
        seq![
            self.section_heading,
            self.header_bg,
            self.header_fg,
            self.branch,
            self.branch_remote,
            self.tag,
            self.upstream,
            self.repo_state,
            self.untracked,
            self.conflict,
            self.file_status,
            self.hash,
            self.log_author,
            self.log_date,
            self.todo_action,
            self.hunk_header,
            self.diff_add,
            self.diff_remove,
            self.cursor_bg,
            self.search_match_bg,
            self.search_match_fg,
            self.bar_bg,
            self.bar_fg,
            self.message,
            self.warning,
            self.error,
            self.success,
            self.key,
            self.input_prompt,
            self.picker_match,
            self.picker_marker,
            self.picker_selected_bg,
            self.picker_selected_fg,
            self.picker_count,
            self.menu_title,
            self.command,
            self.help_border,
        ]
    }
}

/// The built-in colors of the roles, in the order of `Theme`'s fields.
pub open spec fn default_colors() -> Seq<Color> {
    seq![
        Color::Cyan,
        Color::Blue,
        Color::White,
        Color::Cyan,
        Color::Green,
        Color::Yellow,
        Color::Green,
        Color::Red,
        Color::Magenta,
        Color::Red,
        Color::Blue,
        Color::Yellow,
        Color::Blue,
        Color::Gray,
        Color::Magenta,
        Color::Cyan,
        Color::Green,
        Color::Red,
        Color::DarkGray,
        Color::Magenta,
        Color::LightCyan,
        Color::Black,
        Color::Gray,
        Color::Cyan,
        Color::Yellow,
        Color::Red,
        Color::Green,
        Color::Yellow,
        Color::Yellow,
        Color::Cyan,
        Color::Yellow,
        Color::DarkGray,
        Color::Reset,
        Color::DarkGray,
        Color::Magenta,
        Color::Cyan,
        Color::Cyan,
    ]
}

/// The position of the role with config key `key`.
pub open spec fn role_index(key: Seq<char>) -> Option<int> {
    if exists|i: int| is_role_at(key, i) {
        Some(choose|i: int| is_role_at(key, i))
    } else {
        None
    }
}

/// The role at `i` is the first with key `key`.
pub open spec fn is_role_at(key: Seq<char>, i: int) -> bool {
    0 <= i < role_keys().len() && role_keys()[i] == key && forall|j: int| 0 <= j < i ==> role_keys()[j] != key
}

impl Default for Theme {
    fn default() -> (r: Theme)
        ensures
            r@ == default_colors(),
    {
        Theme {
            section_heading: Color::Cyan,
            header_bg: Color::Blue,
            header_fg: Color::White,
            branch: Color::Cyan,
            branch_remote: Color::Green,
            tag: Color::Yellow,
            upstream: Color::Green,
            repo_state: Color::Red,
            untracked: Color::Magenta,
            conflict: Color::Red,
            file_status: Color::Blue,
            hash: Color::Yellow,
            log_author: Color::Blue,
            log_date: Color::Gray,
            todo_action: Color::Magenta,
            hunk_header: Color::Cyan,
            diff_add: Color::Green,
            diff_remove: Color::Red,
            cursor_bg: Color::DarkGray,
            search_match_bg: Color::Magenta,
            search_match_fg: Color::LightCyan,
            bar_bg: Color::Black,
            bar_fg: Color::Gray,
            message: Color::Cyan,
            warning: Color::Yellow,
            error: Color::Red,
            success: Color::Green,
            key: Color::Yellow,
            input_prompt: Color::Yellow,
            picker_match: Color::Cyan,
            picker_marker: Color::Yellow,
            picker_selected_bg: Color::DarkGray,
            picker_selected_fg: Color::Reset,
            picker_count: Color::DarkGray,
            menu_title: Color::Magenta,
            command: Color::Cyan,
            help_border: Color::Cyan,
        }
    }
}

/// The message for a value that is no color.
pub open spec fn invalid_color_message(key: Seq<char>, value: Seq<char>) -> Seq<char> {
    "colors: invalid color "@ + str_debug(value) + " for "@ + str_debug(key)
}

/// The message for a key that names no role.
pub open spec fn unknown_key_message(key: Seq<char>) -> Seq<char> {
    "colors: unknown key "@ + str_debug(key)
}

fn key_position(key: &str) -> (r: Option<usize>)
    ensures
        match r {
            Some(i) => is_role_at(key@, i as int),
            None => forall|j: int| 0 <= j < role_keys().len() ==> role_keys()[j] != key@,
        },
{
    let k = chars_of(key);
    if name_is(&k, "section-heading") {
        return Some(0);
    }
    if name_is(&k, "header-bg") {
        return Some(1);
    }
    if name_is(&k, "header-fg") {
        return Some(2);
    }
    if name_is(&k, "branch") {
        return Some(3);
    }
    if name_is(&k, "branch-remote") {
        return Some(4);
    }
    if name_is(&k, "tag") {
        return Some(5);
    }
    if name_is(&k, "upstream") {
        return Some(6);
    }
    if name_is(&k, "repo-state") {
        return Some(7);
    }
    if name_is(&k, "untracked") {
        return Some(8);
    }
    if name_is(&k, "conflict") {
        return Some(9);
    }
    if name_is(&k, "file-status") {
        return Some(10);
    }
    if name_is(&k, "hash") {
        return Some(11);
    }
    if name_is(&k, "log-author") {
        return Some(12);
    }
    if name_is(&k, "log-date") {
        return Some(13);
    }
    if name_is(&k, "todo-action") {
        return Some(14);
    }
    if name_is(&k, "hunk-header") {
        return Some(15);
    }
    if name_is(&k, "diff-add") {
        return Some(16);
    }
    if name_is(&k, "diff-remove") {
        return Some(17);
    }
    if name_is(&k, "cursor-bg") {
        return Some(18);
    }
    if name_is(&k, "search-match-bg") {
        return Some(19);
    }
    if name_is(&k, "search-match-fg") {
        return Some(20);
    }
    if name_is(&k, "bar-bg") {
        return Some(21);
    }
    if name_is(&k, "bar-fg") {
        return Some(22);
    }
    if name_is(&k, "message") {
        return Some(23);
    }
    if name_is(&k, "warning") {
        return Some(24);
    }
    if name_is(&k, "error") {
        return Some(25);
    }
    if name_is(&k, "success") {
        return Some(26);
    }
    if name_is(&k, "key") {
        return Some(27);
    }
    if name_is(&k, "input-prompt") {
        return Some(28);
    }
    if name_is(&k, "picker-match") {
        return Some(29);
    }
    if name_is(&k, "picker-marker") {
        return Some(30);
    }
    if name_is(&k, "picker-selected-bg") {
        return Some(31);
    }
    if name_is(&k, "picker-selected-fg") {
        return Some(32);
    }
    if name_is(&k, "picker-count") {
        return Some(33);
    }
    if name_is(&k, "menu-title") {
        return Some(34);
    }
    if name_is(&k, "command") {
        return Some(35);
    }
    if name_is(&k, "help-border") {
        return Some(36);
    }
    proof {
        assert forall|i: int| 0 <= i < role_keys().len() implies role_keys()[i] != key@ by {
        }
    }
    None
}

impl Theme {
    fn set_role(&mut self, i: usize, c: Color)
        requires
            i < role_keys().len(),
        ensures
            final(self)@ == old(self)@.update(i as int, c),
    {
        match i {
            0 => self.section_heading = c,
            1 => self.header_bg = c,
            2 => self.header_fg = c,
            3 => self.branch = c,
            4 => self.branch_remote = c,
            5 => self.tag = c,
            6 => self.upstream = c,
            7 => self.repo_state = c,
            8 => self.untracked = c,
            9 => self.conflict = c,
            10 => self.file_status = c,
            11 => self.hash = c,
            12 => self.log_author = c,
            13 => self.log_date = c,
            14 => self.todo_action = c,
            15 => self.hunk_header = c,
            16 => self.diff_add = c,
            17 => self.diff_remove = c,
            18 => self.cursor_bg = c,
            19 => self.search_match_bg = c,
            20 => self.search_match_fg = c,
            21 => self.bar_bg = c,
            22 => self.bar_fg = c,
            23 => self.message = c,
            24 => self.warning = c,
            25 => self.error = c,
            26 => self.success = c,
            27 => self.key = c,
            28 => self.input_prompt = c,
            29 => self.picker_match = c,
            30 => self.picker_marker = c,
            31 => self.picker_selected_bg = c,
            32 => self.picker_selected_fg = c,
            33 => self.picker_count = c,
            34 => self.menu_title = c,
            35 => self.command = c,
            36 => self.help_border = c,
            _ => {},
        }
        assert(self@ =~= old(self)@.update(i as int, c));
    }

    /// Override one role by its config key. `Err` for an unparsable color or
    /// an unknown key, with a message for the warning list.
    pub fn set(&mut self, key: &str, value: &str) -> (r: Result<(), String>)
        ensures
            parsed_color(value@) is None ==> r is Err && r->Err_0@ == invalid_color_message(key@, value@)
                && final(self)@ == old(self)@,
            parsed_color(value@) is Some && role_index(key@) is None ==> r is Err && r->Err_0@
                == unknown_key_message(key@) && final(self)@ == old(self)@,
            parsed_color(value@) is Some && role_index(key@) is Some ==> r is Ok && final(self)@ == old(
                self,
            )@.update(role_index(key@)->0, color_of_display(parsed_color(value@)->0)),
    {
        let text = match parse_color_text(value) {
            Some(t) => t,
            None => {
                let mut msg = String::new();
                push_str(&mut msg, "colors: invalid color ");
                let v = debug_quoted(value);
                push_str(&mut msg, v.as_str());
                push_str(&mut msg, " for ");
                let k = debug_quoted(key);
                push_str(&mut msg, k.as_str());
                assert(msg@ =~= invalid_color_message(key@, value@));
                return Err(msg);
            },
        };
        let tv = chars_of(text.as_str());
        let color = color_from_display(&tv);
        match key_position(key) {
            Some(i) => {
                proof {
                    let j = choose|j: int| is_role_at(key@, j);
                    assert(is_role_at(key@, i as int));
                    if j < i {
                        assert(role_keys()[j] != key@);
                    }
                    if i < j {
                        assert(role_keys()[i as int] != key@);
                    }
                }
                self.set_role(i, color);
                Ok(())
            },
            None => {
                assert(!exists|i: int| is_role_at(key@, i));
                let mut msg = String::new();
                push_str(&mut msg, "colors: unknown key ");
                let k = debug_quoted(key);
                push_str(&mut msg, k.as_str());
                assert(msg@ =~= unknown_key_message(key@));
                Err(msg)
            },
        }
    }
}

} // verus!
