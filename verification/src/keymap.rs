//! Key presses, Emacs-style key notation ("C-d", "P p", "S-TAB") and the
//! key-sequence keymaps with their layering (buffer-local over global).

use vstd::prelude::*;

use crate::command::{command_name, info, Command, Menu, NavCmd, TodoCmd};
use crate::order::{
    keyed_views, pair_views, sort_by_key, sort_pairs, sorted_by_key, sorted_pairs,
};
use crate::text::{
    chars_of, debug_quoted, eq_chars, join_spaced, push_char, push_decimal, push_str, seqs,
    split_whitespace, split_whitespace_exec, starts_with, str_debug, strip_prefix_str,
    subvec, decimal, is_whitespace,
};

verus! {

/// A key, as the terminal reports it.
#[derive(Debug, Clone, Copy, PartialEq, Eq, Hash, Structural)]
pub enum KeyCode {
    Backspace,
    Enter,
    Left,
    Right,
    Up,
    Down,
    Home,
    End,
    PageUp,
    PageDown,
    Tab,
    BackTab,
    Delete,
    Insert,
    F(u8),
    Char(char),
    Null,
    Esc,
    CapsLock,
    ScrollLock,
    NumLock,
    PrintScreen,
    Pause,
    Menu,
    KeypadBegin,
    /// Media and modifier keys, which no binding uses.
    Other,
}

/// The modifiers that take part in key lookup.
#[derive(Debug, Clone, Copy, PartialEq, Eq, Hash, Structural)]
pub struct KeyModifiers {
    pub ctrl: bool,
    pub alt: bool,
    pub shift: bool,
}

impl KeyModifiers {
    pub fn none() -> (r: Self)
        ensures
            !r.ctrl && !r.alt && !r.shift,
    {
        KeyModifiers { ctrl: false, alt: false, shift: false }
    }

    pub fn control() -> (r: Self)
        ensures
            r.ctrl && !r.alt && !r.shift,
    {
        KeyModifiers { ctrl: true, alt: false, shift: false }
    }

    pub fn alt() -> (r: Self)
        ensures
            !r.ctrl && r.alt && !r.shift,
    {
        KeyModifiers { ctrl: false, alt: true, shift: false }
    }

    pub fn shift() -> (r: Self)
        ensures
            !r.ctrl && !r.alt && r.shift,
    {
        KeyModifiers { ctrl: false, alt: false, shift: true }
    }
}

#[derive(Debug, Clone, Copy, PartialEq, Eq, Hash, Structural)]
pub struct KeyPress {
    pub code: KeyCode,
    pub mods: KeyModifiers,
}

impl KeyPress {
    pub fn new(code: KeyCode, mods: KeyModifiers) -> (r: Self)
        ensures
            r.code == code,
            r.mods == mods,
    {
        KeyPress { code, mods }
    }

    pub fn is_esc(&self) -> (r: bool)
        ensures
            r == (self.code == KeyCode::Esc),
    {
        matches!(self.code, KeyCode::Esc)
    }
}

pub open spec fn ascii_lower(c: char) -> char {
    if 'A' <= c && c <= 'Z' {
        ((c as u32) + 32) as char
    } else {
        c
    }
}

/// Canonical form of a key press: SHIFT is implied by a character itself,
/// Ctrl characters are lowercased, and Shift-Tab is `BackTab` alone.
pub open spec fn normalize_spec(code: KeyCode, mods: KeyModifiers) -> KeyPress {
    match code {
        KeyCode::Char(c) => KeyPress {
            code: KeyCode::Char(
                if mods.ctrl {
                    ascii_lower(c)
                } else {
                    c
                },
            ),
            mods: KeyModifiers { shift: false, ..mods },
        },
        KeyCode::BackTab => KeyPress {
            code: KeyCode::BackTab,
            mods: KeyModifiers { shift: false, ..mods },
        },
        _ => KeyPress { code: code, mods: mods },
    }
}

fn to_ascii_lower(c: char) -> (r: char)
    ensures
        r == ascii_lower(c),
{
    if 'A' <= c && c <= 'Z' {
        ((c as u32) + 32) as u8 as char
    } else {
        c
    }
}

/// Canonicalize a terminal key event (its code and the Ctrl/Alt/Shift
/// modifiers) so that lookup is stable across terminals.
pub fn normalize(code: KeyCode, mods: KeyModifiers) -> (r: KeyPress)
    ensures
        r == normalize_spec(code, mods),
{
    match code {
        KeyCode::Char(c) => {
            let c2 = if mods.ctrl {
                to_ascii_lower(c)
            } else {
                c
            };
            KeyPress::new(
                KeyCode::Char(c2),
                KeyModifiers { ctrl: mods.ctrl, alt: mods.alt, shift: false },
            )
        },
        KeyCode::BackTab => KeyPress::new(
            KeyCode::BackTab,
            KeyModifiers { ctrl: mods.ctrl, alt: mods.alt, shift: false },
        ),
        _ => KeyPress::new(code, mods),
    }
}

// ---------------------------------------------------------------------------
// Notation
// ---------------------------------------------------------------------------

/// Leading `C-`/`M-`/`S-` prefixes of a token, folded into the modifiers;
/// `None` when a prefix leaves nothing behind.
pub open spec fn strip_mods(s: Seq<char>, m: KeyModifiers) -> Option<(Seq<char>, KeyModifiers)>
    decreases s.len(),
{
    if starts_with(s, "C-"@) && "C-"@.len() > 0 {
        let r = s.subrange("C-"@.len() as int, s.len() as int);
        if r.len() == 0 {
            None
        } else {
            strip_mods(r, KeyModifiers { ctrl: true, ..m })
        }
    } else if starts_with(s, "M-"@) && "M-"@.len() > 0 {
        let r = s.subrange("M-"@.len() as int, s.len() as int);
        if r.len() == 0 {
            None
        } else {
            strip_mods(r, KeyModifiers { alt: true, ..m })
        }
    } else if starts_with(s, "S-"@) && "S-"@.len() > 0 {
        let r = s.subrange("S-"@.len() as int, s.len() as int);
        if r.len() == 0 {
            None
        } else {
            strip_mods(r, KeyModifiers { shift: true, ..m })
        }
    } else {
        Some((s, m))
    }
}

/// The key a (modifier-free) key name stands for.
pub open spec fn named_key(s: Seq<char>, m: KeyModifiers) -> Option<KeyPress> {
    if s == "TAB"@ {
        if m.shift {
            Some(KeyPress { code: KeyCode::BackTab, mods: KeyModifiers { shift: false, ..m } })
        } else {
            Some(KeyPress { code: KeyCode::Tab, mods: m })
        }
    } else if s == "RET"@ || s == "ENTER"@ {
        Some(KeyPress { code: KeyCode::Enter, mods: m })
    } else if s == "SPC"@ || s == "SPACE"@ {
        Some(KeyPress { code: KeyCode::Char(' '), mods: m })
    } else if s == "ESC"@ {
        Some(KeyPress { code: KeyCode::Esc, mods: m })
    } else if s == "BACKSPACE"@ {
        Some(KeyPress { code: KeyCode::Backspace, mods: m })
    } else if s == "DEL"@ || s == "DELETE"@ {
        Some(KeyPress { code: KeyCode::Delete, mods: m })
    } else if s == "UP"@ {
        Some(KeyPress { code: KeyCode::Up, mods: m })
    } else if s == "DOWN"@ {
        Some(KeyPress { code: KeyCode::Down, mods: m })
    } else if s == "LEFT"@ {
        Some(KeyPress { code: KeyCode::Left, mods: m })
    } else if s == "RIGHT"@ {
        Some(KeyPress { code: KeyCode::Right, mods: m })
    } else if s == "HOME"@ {
        Some(KeyPress { code: KeyCode::Home, mods: m })
    } else if s == "END"@ {
        Some(KeyPress { code: KeyCode::End, mods: m })
    } else if s == "PGUP"@ {
        Some(KeyPress { code: KeyCode::PageUp, mods: m })
    } else if s == "PGDN"@ {
        Some(KeyPress { code: KeyCode::PageDown, mods: m })
    } else if s.len() == 1 {
        Some(KeyPress { code: KeyCode::Char(s[0]), mods: m })
    } else {
        None
    }
}

/// One token of key notation, or the error naming it.
pub open spec fn parse_one_spec(tok: Seq<char>) -> Result<KeyPress, Seq<char>> {
    match strip_mods(tok, KeyModifiers { ctrl: false, alt: false, shift: false }) {
        None => Err("invalid key: "@ + str_debug(tok)),
        Some((rest, m)) => match named_key(rest, m) {
            Some(k) => Ok(k),
            None => Err("invalid key: "@ + str_debug(tok)),
        },
    }
}

/// Whitespace-separated tokens; the first bad token decides the error.
pub open spec fn parse_keys_fold(toks: Seq<Seq<char>>) -> Result<Seq<KeyPress>, Seq<char>>
    decreases toks.len(),
{
    if toks.len() == 0 {
        Ok(Seq::empty())
    } else {
        match parse_keys_fold(toks.drop_last()) {
            Err(e) => Err(e),
            Ok(ks) => match parse_one_spec(toks.last()) {
                Ok(k) => Ok(ks.push(k)),
                Err(e) => Err(e),
            },
        }
    }
}

pub open spec fn parse_keys_spec(spec: Seq<char>) -> Result<Seq<KeyPress>, Seq<char>> {
    parse_keys_fold(split_whitespace(spec))
}

fn invalid_key(tok: &Vec<char>) -> (r: String)
    ensures
        r@ == "invalid key: "@ + str_debug(tok@),
{
    let mut msg = String::new();
    push_str(&mut msg, "invalid key: ");
    let t = crate::text::string_of(tok);
    let q = debug_quoted(t.as_str());
    push_str(&mut msg, q.as_str());
    assert(msg@ =~= "invalid key: "@ + str_debug(tok@));
    msg
}

fn is_name(s: &Vec<char>, name: &str) -> (r: bool)
    ensures
        r == (s@ == name@),
{
    let n = chars_of(name);
    eq_chars(s, &n)
}

fn parse_one(tok: &Vec<char>) -> (r: Result<KeyPress, String>)
    ensures
        r is Ok ==> parse_one_spec(tok@) == Ok::<KeyPress, Seq<char>>(r->Ok_0),
        r is Err ==> parse_one_spec(tok@) == Err::<KeyPress, Seq<char>>(r->Err_0@),
{
    let mut mods = KeyModifiers::none();
    let mut rest = subvec(tok, 0, tok.len());
    assert(tok@.subrange(0, tok@.len() as int) =~= tok@);
    loop
        invariant
            strip_mods(tok@, KeyModifiers { ctrl: false, alt: false, shift: false }) == strip_mods(
                rest@,
                mods,
            ),
        ensures
            strip_mods(tok@, KeyModifiers { ctrl: false, alt: false, shift: false }) == Some(
                (rest@, mods),
            ),
        decreases rest@.len(),
    {
        let c = chars_of("C-");
        let mm = chars_of("M-");
        let s = chars_of("S-");
        if crate::text::has_prefix(&rest, &c) && c.len() > 0 {
            let r = subvec(&rest, c.len(), rest.len());
            if r.len() == 0 {
                return Err(invalid_key(tok));
            }
            mods = KeyModifiers { ctrl: true, alt: mods.alt, shift: mods.shift };
            rest = r;
        } else if crate::text::has_prefix(&rest, &mm) && mm.len() > 0 {
            let r = subvec(&rest, mm.len(), rest.len());
            if r.len() == 0 {
                return Err(invalid_key(tok));
            }
            mods = KeyModifiers { ctrl: mods.ctrl, alt: true, shift: mods.shift };
            rest = r;
        } else if crate::text::has_prefix(&rest, &s) && s.len() > 0 {
            let r = subvec(&rest, s.len(), rest.len());
            if r.len() == 0 {
                return Err(invalid_key(tok));
            }
            mods = KeyModifiers { ctrl: mods.ctrl, alt: mods.alt, shift: true };
            rest = r;
        } else {
            break;
        }
    }
    let m = mods;
    let k = if is_name(&rest, "TAB") {
        if m.shift {
            KeyPress::new(KeyCode::BackTab, KeyModifiers { ctrl: m.ctrl, alt: m.alt, shift: false })
        } else {
            KeyPress::new(KeyCode::Tab, m)
        }
    } else if is_name(&rest, "RET") || is_name(&rest, "ENTER") {
        KeyPress::new(KeyCode::Enter, m)
    } else if is_name(&rest, "SPC") || is_name(&rest, "SPACE") {
        KeyPress::new(KeyCode::Char(' '), m)
    } else if is_name(&rest, "ESC") {
        KeyPress::new(KeyCode::Esc, m)
    } else if is_name(&rest, "BACKSPACE") {
        KeyPress::new(KeyCode::Backspace, m)
    } else if is_name(&rest, "DEL") || is_name(&rest, "DELETE") {
        KeyPress::new(KeyCode::Delete, m)
    } else if is_name(&rest, "UP") {
        KeyPress::new(KeyCode::Up, m)
    } else if is_name(&rest, "DOWN") {
        KeyPress::new(KeyCode::Down, m)
    } else if is_name(&rest, "LEFT") {
        KeyPress::new(KeyCode::Left, m)
    } else if is_name(&rest, "RIGHT") {
        KeyPress::new(KeyCode::Right, m)
    } else if is_name(&rest, "HOME") {
        KeyPress::new(KeyCode::Home, m)
    } else if is_name(&rest, "END") {
        KeyPress::new(KeyCode::End, m)
    } else if is_name(&rest, "PGUP") {
        KeyPress::new(KeyCode::PageUp, m)
    } else if is_name(&rest, "PGDN") {
        KeyPress::new(KeyCode::PageDown, m)
    } else if rest.len() == 1 {
        KeyPress::new(KeyCode::Char(rest[0]), m)
    } else {
        return Err(invalid_key(tok));
    };
    Ok(k)
}

/// Parse `"C-x u"`-style notation into a key sequence.
pub fn parse_keys(spec: &str) -> (r: Result<Vec<KeyPress>, String>)
    ensures
        r is Ok ==> parse_keys_spec(spec@) == Ok::<Seq<KeyPress>, Seq<char>>(r->Ok_0@),
        r is Err ==> parse_keys_spec(spec@) == Err::<Seq<KeyPress>, Seq<char>>(r->Err_0@),
{
    let chars = chars_of(spec);
    let toks = split_whitespace_exec(&chars);
    let mut out: Vec<KeyPress> = Vec::new();
    let mut i: usize = 0;
    assert(seqs(toks@).subrange(0, 0) =~= Seq::<Seq<char>>::empty());
    assert(out@ =~= Seq::<KeyPress>::empty());
    while i < toks.len()
        invariant
            i <= toks.len(),
            chars@ == spec@,
            seqs(toks@) == split_whitespace(chars@),
            parse_keys_fold(seqs(toks@).subrange(0, i as int)) == Ok::<Seq<KeyPress>, Seq<char>>(
                out@,
            ),
        decreases toks.len() - i,
    {
        proof {
            assert(seqs(toks@).subrange(0, i + 1).drop_last() =~= seqs(toks@).subrange(
                0,
                i as int,
            ));
            assert(seqs(toks@).subrange(0, i + 1).last() == toks@[i as int]@);
        }
        match parse_one(&toks[i]) {
            Ok(k) => {
                out.push(k);
            },
            Err(e) => {
                proof {
                    lemma_parse_keys_err_sticks(seqs(toks@), i as int + 1, e@);
                    assert(seqs(toks@).subrange(0, toks@.len() as int) =~= seqs(toks@));
                }
                return Err(e);
            },
        }
        i += 1;
    }
    assert(seqs(toks@).subrange(0, toks@.len() as int) =~= seqs(toks@));
    Ok(out)
}

proof fn lemma_parse_keys_err_sticks(toks: Seq<Seq<char>>, k: int, e: Seq<char>)
    requires
        0 <= k <= toks.len(),
        parse_keys_fold(toks.subrange(0, k)) == Err::<Seq<KeyPress>, Seq<char>>(e),
    ensures
        parse_keys_fold(toks) == Err::<Seq<KeyPress>, Seq<char>>(e),
    decreases toks.len() - k,
{
    if k < toks.len() {
        assert(toks.subrange(0, k + 1).drop_last() =~= toks.subrange(0, k));
        lemma_parse_keys_err_sticks(toks, k + 1, e);
    } else {
        assert(toks.subrange(0, k) =~= toks);
    }
}

/// How a key code is written (the `Debug` name for keys without notation).
pub open spec fn code_name(c: KeyCode) -> Seq<char> {
    match c {
        KeyCode::Char(ch) => if ch == ' ' {
            "SPC"@
        } else {
            seq![ch]
        },
        KeyCode::Tab => "TAB"@,
        KeyCode::BackTab => "S-TAB"@,
        KeyCode::Enter => "RET"@,
        KeyCode::Esc => "ESC"@,
        KeyCode::Backspace => "BACKSPACE"@,
        KeyCode::Delete => "DEL"@,
        KeyCode::Up => "UP"@,
        KeyCode::Down => "DOWN"@,
        KeyCode::Left => "LEFT"@,
        KeyCode::Right => "RIGHT"@,
        KeyCode::Home => "HOME"@,
        KeyCode::End => "END"@,
        KeyCode::PageUp => "PGUP"@,
        KeyCode::PageDown => "PGDN"@,
        KeyCode::Insert => "Insert"@,
        KeyCode::F(n) => "F("@ + decimal(n as nat) + ")"@,
        KeyCode::Null => "Null"@,
        KeyCode::CapsLock => "CapsLock"@,
        KeyCode::ScrollLock => "ScrollLock"@,
        KeyCode::NumLock => "NumLock"@,
        KeyCode::PrintScreen => "PrintScreen"@,
        KeyCode::Pause => "Pause"@,
        KeyCode::Menu => "Menu"@,
        KeyCode::KeypadBegin => "KeypadBegin"@,
        KeyCode::Other => "Other"@,
    }
}

pub open spec fn mods_prefix(m: KeyModifiers) -> Seq<char> {
    (if m.ctrl {
        "C-"@
    } else {
        Seq::empty()
    }) + (if m.alt {
        "M-"@
    } else {
        Seq::empty()
    }) + (if m.shift {
        "S-"@
    } else {
        Seq::empty()
    })
}

/// A key press in notation.
pub open spec fn format_key_spec(k: KeyPress) -> Seq<char> {
    mods_prefix(k.mods) + code_name(k.code)
}

/// A key sequence in notation: its keys separated by spaces.
pub open spec fn format_keys_spec(ks: Seq<KeyPress>) -> Seq<char> {
    join_spaced(key_tokens(ks))
}

/// Each key of a sequence in notation.
pub open spec fn key_tokens(ks: Seq<KeyPress>) -> Seq<Seq<char>> {
    ks.map_values(|k: KeyPress| format_key_spec(k))
}

/// Render a key press back into notation (for help and the pending display).
pub fn format_key(kp: &KeyPress) -> (r: String)
    ensures
        r@ == format_key_spec(*kp),
{
    let mut s = String::new();
    if kp.mods.ctrl {
        push_str(&mut s, "C-");
    }
    if kp.mods.alt {
        push_str(&mut s, "M-");
    }
    if kp.mods.shift {
        push_str(&mut s, "S-");
    }
    let ghost pre = s@;
    assert(pre =~= mods_prefix(kp.mods));
    match kp.code {
        KeyCode::Char(c) => {
            if c == ' ' {
                push_str(&mut s, "SPC");
            } else {
                push_char(&mut s, c);
            }
        },
        KeyCode::Tab => push_str(&mut s, "TAB"),
        KeyCode::BackTab => push_str(&mut s, "S-TAB"),
        KeyCode::Enter => push_str(&mut s, "RET"),
        KeyCode::Esc => push_str(&mut s, "ESC"),
        KeyCode::Backspace => push_str(&mut s, "BACKSPACE"),
        KeyCode::Delete => push_str(&mut s, "DEL"),
        KeyCode::Up => push_str(&mut s, "UP"),
        KeyCode::Down => push_str(&mut s, "DOWN"),
        KeyCode::Left => push_str(&mut s, "LEFT"),
        KeyCode::Right => push_str(&mut s, "RIGHT"),
        KeyCode::Home => push_str(&mut s, "HOME"),
        KeyCode::End => push_str(&mut s, "END"),
        KeyCode::PageUp => push_str(&mut s, "PGUP"),
        KeyCode::PageDown => push_str(&mut s, "PGDN"),
        KeyCode::Insert => push_str(&mut s, "Insert"),
        KeyCode::F(n) => {
            push_str(&mut s, "F(");
            push_decimal(&mut s, n as u64);
            push_str(&mut s, ")");
        },
        KeyCode::Null => push_str(&mut s, "Null"),
        KeyCode::CapsLock => push_str(&mut s, "CapsLock"),
        KeyCode::ScrollLock => push_str(&mut s, "ScrollLock"),
        KeyCode::NumLock => push_str(&mut s, "NumLock"),
        KeyCode::PrintScreen => push_str(&mut s, "PrintScreen"),
        KeyCode::Pause => push_str(&mut s, "Pause"),
        KeyCode::Menu => push_str(&mut s, "Menu"),
        KeyCode::KeypadBegin => push_str(&mut s, "KeypadBegin"),
        KeyCode::Other => push_str(&mut s, "Other"),
    }
    assert(s@ =~= pre + code_name(kp.code));
    s
}

/// A key sequence in notation, keys separated by spaces.
pub fn format_keys(seq: &[KeyPress]) -> (r: String)
    ensures
        r@ == format_keys_spec(seq@),
{
    let ghost v = seq@.map_values(|k: KeyPress| format_key_spec(k));
    let mut out = String::new();
    let mut i: usize = 0;
    assert(v.subrange(0, 0) =~= Seq::<Seq<char>>::empty());
    while i < seq.len()
        invariant
            i <= seq.len(),
            v == seq@.map_values(|k: KeyPress| format_key_spec(k)),
            out@ == join_spaced(v.subrange(0, i as int)),
        decreases seq.len() - i,
    {
        if i > 0 {
            push_char(&mut out, ' ');
        }
        let f = format_key(&seq[i]);
        push_str(&mut out, f.as_str());
        i += 1;
        assert(v.subrange(0, i as int).drop_last() =~= v.subrange(0, i - 1));
        if i == 1 {
            assert(out@ =~= v.subrange(0, 1)[0]);
        } else {
            assert(out@ =~= join_spaced(v.subrange(0, i - 1)) + seq![' '] + v[i - 1]);
        }
    }
    assert(v.subrange(0, seq@.len() as int) =~= v);
    out
}

// ---------------------------------------------------------------------------
// Keymaps
// ---------------------------------------------------------------------------

#[derive(Debug, Clone, Copy, PartialEq, Eq, Structural)]
pub enum Lookup {
    Command(Command),
    /// The sequence so far is a strict prefix of at least one binding.
    Pending,
    Unbound,
}

/// Keys that notation writes down and reads back as themselves: every
/// character but whitespace other than the space, and the named keys (Tab
/// and Shift-Tab without a separate Shift).
pub open spec fn has_notation(k: KeyPress) -> bool {
    match k.code {
        KeyCode::Char(c) => c == ' ' || !is_whitespace(c),
        KeyCode::Tab => !k.mods.shift,
        KeyCode::BackTab => !k.mods.shift,
        KeyCode::Enter => true,
        KeyCode::Esc => true,
        KeyCode::Backspace => true,
        KeyCode::Delete => true,
        KeyCode::Up => true,
        KeyCode::Down => true,
        KeyCode::Left => true,
        KeyCode::Right => true,
        KeyCode::Home => true,
        KeyCode::End => true,
        KeyCode::PageUp => true,
        KeyCode::PageDown => true,
        _ => false,
    }
}

pub open spec fn no_whitespace(s: Seq<char>) -> bool {
    forall|i: int| 0 <= i < s.len() ==> !is_whitespace(#[trigger] s[i])
}

proof fn lemma_no_whitespace_concat(a: Seq<char>, b: Seq<char>)
    requires
        no_whitespace(a),
        no_whitespace(b),
    ensures
        no_whitespace(a + b),
{
    assert forall|i: int| 0 <= i < (a + b).len() implies !is_whitespace(#[trigger] (a + b)[i]) by {
        if i < a.len() {
            assert((a + b)[i] == a[i]);
        } else {
            assert((a + b)[i] == b[i - a.len()]);
        }
    }
}

proof fn lemma_strip_ctrl(r: Seq<char>, a: KeyModifiers)
    requires
        r.len() > 0,
    ensures
        strip_mods("C-"@ + r, a) == strip_mods(r, KeyModifiers { ctrl: true, ..a }),
{
    reveal_strlit("C-");
    let s = "C-"@ + r;
    assert(s.subrange(0, 2) =~= "C-"@);
    assert(s.subrange(2, s.len() as int) =~= r);
}

proof fn lemma_strip_alt(r: Seq<char>, a: KeyModifiers)
    requires
        r.len() > 0,
    ensures
        strip_mods("M-"@ + r, a) == strip_mods(r, KeyModifiers { alt: true, ..a }),
{
    reveal_strlit("C-");
    reveal_strlit("M-");
    let s = "M-"@ + r;
    assert(s.subrange(0, 2) =~= "M-"@);
    assert(s.subrange(0, 2)[0] != "C-"@[0]);
    assert(s.subrange(2, s.len() as int) =~= r);
}

proof fn lemma_strip_shift(r: Seq<char>, a: KeyModifiers)
    requires
        r.len() > 0,
    ensures
        strip_mods("S-"@ + r, a) == strip_mods(r, KeyModifiers { shift: true, ..a }),
{
    reveal_strlit("C-");
    reveal_strlit("M-");
    reveal_strlit("S-");
    let s = "S-"@ + r;
    assert(s.subrange(0, 2) =~= "S-"@);
    assert(s.subrange(0, 2)[0] != "C-"@[0]);
    assert(s.subrange(0, 2)[0] != "M-"@[0]);
    assert(s.subrange(2, s.len() as int) =~= r);
}

/// Reading the modifier prefixes back gives the modifiers.
proof fn lemma_strip_mods_prefix(m: KeyModifiers, name: Seq<char>)
    requires
        name.len() > 0,
    ensures
        strip_mods(mods_prefix(m) + name, KeyModifiers { ctrl: false, alt: false, shift: false })
            == strip_mods(name, m),
        no_whitespace(name) ==> no_whitespace(mods_prefix(m) + name),
{
    reveal_strlit("C-");
    reveal_strlit("M-");
    reveal_strlit("S-");
    let pc = if m.ctrl { "C-"@ } else { Seq::<char>::empty() };
    let pm = if m.alt { "M-"@ } else { Seq::<char>::empty() };
    let ps = if m.shift { "S-"@ } else { Seq::<char>::empty() };
    let none = KeyModifiers { ctrl: false, alt: false, shift: false };
    let a1 = KeyModifiers { ctrl: m.ctrl, ..none };
    let a2 = KeyModifiers { alt: m.alt, ..a1 };
    assert(a2 == KeyModifiers { shift: false, ..m });
    let t3 = ps + name;
    let t2 = pm + t3;
    let t1 = pc + t2;
    assert(mods_prefix(m) + name =~= t1);
    if m.ctrl {
        lemma_strip_ctrl(t2, none);
    } else {
        assert(t1 =~= t2);
    }
    if m.alt {
        lemma_strip_alt(t3, a1);
    } else {
        assert(t2 =~= t3);
    }
    if m.shift {
        lemma_strip_shift(name, a2);
    } else {
        assert(t3 =~= name);
    }
    assert(KeyModifiers { shift: m.shift, ..a2 } == m);
    if no_whitespace(name) {
        assert(no_whitespace("C-"@));
        assert(no_whitespace("M-"@));
        assert(no_whitespace("S-"@));
        lemma_no_whitespace_concat(ps, name);
        lemma_no_whitespace_concat(pm, t3);
        lemma_no_whitespace_concat(pc, t2);
    }
}

/// A name whose second character is not `-` carries no modifier prefix.
proof fn lemma_no_mod_prefix(name: Seq<char>, m: KeyModifiers)
    requires
        name.len() >= 1,
        name.len() == 1 || name[1] != '-',
    ensures
        strip_mods(name, m) == Some((name, m)),
{
    reveal_strlit("C-");
    reveal_strlit("M-");
    reveal_strlit("S-");
    if name.len() >= 2 {
        assert(name.subrange(0, 2)[1] == name[1]);
        assert(name.subrange(0, 2)[1] != "C-"@[1]);
        assert(name.subrange(0, 2)[1] != "M-"@[1]);
        assert(name.subrange(0, 2)[1] != "S-"@[1]);
    }
}

/// A key with notation is written as one word, and that word reads back
/// as the key.
pub proof fn lemma_format_parse_key(k: KeyPress)
    requires
        has_notation(k),
    ensures
        parse_one_spec(format_key_spec(k)) == Ok::<KeyPress, Seq<char>>(k),
        crate::text::is_word(format_key_spec(k)),
{
    reveal_strlit("TAB");
    reveal_strlit("S-TAB");
    reveal_strlit("RET");
    reveal_strlit("ENTER");
    reveal_strlit("SPC");
    reveal_strlit("SPACE");
    reveal_strlit("ESC");
    reveal_strlit("BACKSPACE");
    reveal_strlit("DEL");
    reveal_strlit("DELETE");
    reveal_strlit("UP");
    reveal_strlit("DOWN");
    reveal_strlit("LEFT");
    reveal_strlit("RIGHT");
    reveal_strlit("HOME");
    reveal_strlit("END");
    reveal_strlit("PGUP");
    reveal_strlit("PGDN");
    reveal_strlit("S-");
    let m = k.mods;
    let name = code_name(k.code);
    match k.code {
        KeyCode::BackTab => {
            let m2 = KeyModifiers { shift: true, ..m };
            assert("S-TAB"@ =~= "S-"@ + "TAB"@);
            lemma_strip_shift("TAB"@, m);
            lemma_no_mod_prefix("TAB"@, m2);
            lemma_strip_mods_prefix(m, name);
            let none = KeyModifiers { ctrl: false, alt: false, shift: false };
            assert(strip_mods(name, m) == Some(("TAB"@, m2)));
            assert(strip_mods(format_key_spec(k), none) == Some(("TAB"@, m2)));
            assert(named_key("TAB"@, m2) == Some(k));
            assert(parse_one_spec(format_key_spec(k)) == Ok::<KeyPress, Seq<char>>(k));
        },
        _ => {
            lemma_no_mod_prefix(name, m);
            lemma_strip_mods_prefix(m, name);
            match k.code {
                KeyCode::Char(c) => {
                    if c != ' ' {
                        assert(name.len() == 1);
                        assert(named_key(name, m) == Some(k));
                    }
                    assert(parse_one_spec(format_key_spec(k)) == Ok::<KeyPress, Seq<char>>(k));
                },
                KeyCode::Tab => {
                    assert(parse_one_spec(format_key_spec(k)) == Ok::<KeyPress, Seq<char>>(k));
                },
                KeyCode::Enter => {
                    assert(parse_one_spec(format_key_spec(k)) == Ok::<KeyPress, Seq<char>>(k));
                },
                KeyCode::Esc => {
                    assert(parse_one_spec(format_key_spec(k)) == Ok::<KeyPress, Seq<char>>(k));
                },
                KeyCode::Backspace => {
                    assert(parse_one_spec(format_key_spec(k)) == Ok::<KeyPress, Seq<char>>(k));
                },
                KeyCode::Delete => {
                    assert(parse_one_spec(format_key_spec(k)) == Ok::<KeyPress, Seq<char>>(k));
                },
                KeyCode::Up => {
                    assert(parse_one_spec(format_key_spec(k)) == Ok::<KeyPress, Seq<char>>(k));
                },
                KeyCode::Down => {
                    assert(parse_one_spec(format_key_spec(k)) == Ok::<KeyPress, Seq<char>>(k));
                },
                KeyCode::Left => {
                    assert(parse_one_spec(format_key_spec(k)) == Ok::<KeyPress, Seq<char>>(k));
                },
                KeyCode::Right => {
                    assert(parse_one_spec(format_key_spec(k)) == Ok::<KeyPress, Seq<char>>(k));
                },
                KeyCode::Home => {
                    assert(parse_one_spec(format_key_spec(k)) == Ok::<KeyPress, Seq<char>>(k));
                },
                KeyCode::End => {
                    assert("END"@[0] != "TAB"@[0]);
                    assert("END"@[0] != "RET"@[0]);
                    assert("END"@.len() != "ENTER"@.len());
                    assert("END"@[0] != "SPC"@[0]);
                    assert("END"@.len() != "SPACE"@.len());
                    assert("END"@[1] != "ESC"@[1]);
                    assert("END"@.len() != "BACKSPACE"@.len());
                    assert("END"@[0] != "DEL"@[0]);
                    assert("END"@.len() != "DELETE"@.len());
                    assert("END"@.len() != "UP"@.len());
                    assert("END"@.len() != "DOWN"@.len());
                    assert("END"@.len() != "LEFT"@.len());
                    assert("END"@.len() != "RIGHT"@.len());
                    assert("END"@.len() != "HOME"@.len());
                    assert(parse_one_spec(format_key_spec(k)) == Ok::<KeyPress, Seq<char>>(k));
                },
                KeyCode::PageUp => {
                    assert(parse_one_spec(format_key_spec(k)) == Ok::<KeyPress, Seq<char>>(k));
                },
                KeyCode::PageDown => {
                    assert("PGDN"@.len() != "TAB"@.len());
                    assert("PGDN"@.len() != "RET"@.len());
                    assert("PGDN"@.len() != "ENTER"@.len());
                    assert("PGDN"@.len() != "SPC"@.len());
                    assert("PGDN"@.len() != "SPACE"@.len());
                    assert("PGDN"@.len() != "ESC"@.len());
                    assert("PGDN"@.len() != "BACKSPACE"@.len());
                    assert("PGDN"@.len() != "DEL"@.len());
                    assert("PGDN"@.len() != "DELETE"@.len());
                    assert("PGDN"@.len() != "UP"@.len());
                    assert("PGDN"@[0] != "DOWN"@[0]);
                    assert("PGDN"@[0] != "LEFT"@[0]);
                    assert("PGDN"@.len() != "RIGHT"@.len());
                    assert("PGDN"@[0] != "HOME"@[0]);
                    assert("PGDN"@.len() != "END"@.len());
                    assert("PGDN"@[2] != "PGUP"@[2]);
                    assert(parse_one_spec(format_key_spec(k)) == Ok::<KeyPress, Seq<char>>(k));
                },
                _ => {},
            }
        },
    }
}

proof fn lemma_parse_formatted(ks: Seq<KeyPress>)
    requires
        forall|i: int| 0 <= i < ks.len() ==> has_notation(#[trigger] ks[i]),
    ensures
        parse_keys_fold(key_tokens(ks)) == Ok::<Seq<KeyPress>, Seq<char>>(ks),
    decreases ks.len(),
{
    if ks.len() > 0 {
        let toks = key_tokens(ks);
        let front = ks.drop_last();
        lemma_parse_formatted(front);
        assert(toks.drop_last() =~= key_tokens(front));
        assert(toks.last() == format_key_spec(ks.last()));
        lemma_format_parse_key(ks.last());
        assert(front.push(ks.last()) =~= ks);
    } else {
        assert(key_tokens(ks) =~= Seq::<Seq<char>>::empty());
        assert(ks =~= Seq::<KeyPress>::empty());
    }
}

/// Key notation reads back what it wrote: formatting a sequence of keys
/// that have notation and parsing the text gives the same keys.
pub proof fn law_notation_round_trip(ks: Seq<KeyPress>)
    requires
        forall|i: int| 0 <= i < ks.len() ==> has_notation(#[trigger] ks[i]),
    ensures
        parse_keys_spec(format_keys_spec(ks)) == Ok::<Seq<KeyPress>, Seq<char>>(ks),
{
    let toks = key_tokens(ks);
    assert forall|i: int| 0 <= i < toks.len() implies crate::text::is_word(#[trigger] toks[i]) by {
        lemma_format_parse_key(ks[i]);
    }
    crate::text::lemma_split_join_spaced(toks);
    lemma_parse_formatted(ks);
}

/// Canonical notation reads back and writes back unchanged: the text that
/// formatting keys with notation gives parses to those keys, and formatting
/// them again gives the same text.
pub proof fn law_canonical_notation(s: Seq<char>, ks: Seq<KeyPress>)
    requires
        s == format_keys_spec(ks),
        forall|i: int| 0 <= i < ks.len() ==> has_notation(#[trigger] ks[i]),
    ensures
        parse_keys_spec(s) == Ok::<Seq<KeyPress>, Seq<char>>(ks),
        format_keys_spec(parse_keys_spec(s)->Ok_0) == s,
{
    law_notation_round_trip(ks);
}

pub open spec fn is_prefix_of(p: Seq<KeyPress>, s: Seq<KeyPress>) -> bool {
    p.len() <= s.len() && s.subrange(0, p.len() as int) == p
}

/// Two sequences conflict when one is a prefix of the other: they cannot
/// both be bound.
pub open spec fn conflicts(a: Seq<KeyPress>, b: Seq<KeyPress>) -> bool {
    is_prefix_of(a, b) || is_prefix_of(b, a)
}

/// No binding is empty and none is a prefix of another: the shape of a key
/// trie whose leaves are commands.
pub open spec fn prefix_free(bs: Seq<(Seq<KeyPress>, Command)>) -> bool {
    &&& forall|i: int| 0 <= i < bs.len() ==> (#[trigger] bs[i]).0.len() > 0
    &&& forall|i: int, j: int|
        0 <= i < bs.len() && 0 <= j < bs.len() && i != j ==> !is_prefix_of(
            (#[trigger] bs[i]).0,
            (#[trigger] bs[j]).0,
        )
}

/// The command bound to exactly `q` (the first such binding).
pub open spec fn exact_binding(bs: Seq<(Seq<KeyPress>, Command)>, q: Seq<KeyPress>) -> Option<
    Command,
>
    decreases bs.len(),
{
    if bs.len() == 0 {
        None
    } else {
        match exact_binding(bs.drop_last(), q) {
            Some(c) => Some(c),
            None => if bs.last().0 == q {
                Some(bs.last().1)
            } else {
                None
            },
        }
    }
}

/// Some binding continues past `q`.
pub open spec fn extended(bs: Seq<(Seq<KeyPress>, Command)>, q: Seq<KeyPress>) -> bool {
    exists|i: int| 0 <= i < bs.len() && is_prefix_of(q, (#[trigger] bs[i]).0) && q.len() < bs[i].0.len()
}

/// What typing `q` resolves to.
pub open spec fn lookup_spec(bs: Seq<(Seq<KeyPress>, Command)>, q: Seq<KeyPress>) -> Lookup {
    if q.len() == 0 {
        Lookup::Pending
    } else {
        match exact_binding(bs, q) {
            Some(c) => Lookup::Command(c),
            None => if extended(bs, q) {
                Lookup::Pending
            } else {
                Lookup::Unbound
            },
        }
    }
}

/// The bindings that survive binding `seq`: those not conflicting with it.
pub open spec fn without_conflicts(bs: Seq<(Seq<KeyPress>, Command)>, seq: Seq<KeyPress>) -> Seq<
    (Seq<KeyPress>, Command),
>
    decreases bs.len(),
{
    if bs.len() == 0 {
        bs
    } else if conflicts(bs.last().0, seq) {
        without_conflicts(bs.drop_last(), seq)
    } else {
        without_conflicts(bs.drop_last(), seq).push(bs.last())
    }
}

/// Binding `seq` to `cmd` replaces every binding it conflicts with.
pub open spec fn insert_spec(bs: Seq<(Seq<KeyPress>, Command)>, seq: Seq<KeyPress>, cmd: Command) -> Seq<
    (Seq<KeyPress>, Command),
> {
    if seq.len() == 0 {
        bs
    } else {
        without_conflicts(bs, seq).push((seq, cmd))
    }
}

/// A key-sequence trie: each binding maps a key sequence to a command, and
/// no binding is a prefix of another (binding a sequence replaces the
/// bindings it conflicts with, as a trie replaces a leaf by a subtree or a
/// subtree by a leaf).
#[derive(Debug)]
pub struct Keymap {
    bindings: Vec<(Vec<KeyPress>, Command)>,
}

impl View for Keymap {
    type V = Seq<(Seq<KeyPress>, Command)>;

    closed spec fn view(&self) -> Seq<(Seq<KeyPress>, Command)> {
        self.bindings@.map_values(|b: (Vec<KeyPress>, Command)| (b.0@, b.1))
    }
}

proof fn lemma_without_conflicts(bs: Seq<(Seq<KeyPress>, Command)>, seq: Seq<KeyPress>)
    requires
        prefix_free(bs),
    ensures
        prefix_free(without_conflicts(bs, seq)),
        forall|i: int|
            0 <= i < without_conflicts(bs, seq).len() ==> !conflicts(
                (#[trigger] without_conflicts(bs, seq)[i]).0,
                seq,
            ),
        forall|i: int|
            0 <= i < without_conflicts(bs, seq).len() ==> bs.contains(
                #[trigger] without_conflicts(bs, seq)[i],
            ),
        forall|i: int|
            0 <= i < bs.len() && !conflicts((#[trigger] bs[i]).0, seq) ==> without_conflicts(
                bs,
                seq,
            ).contains(bs[i]),
    decreases bs.len(),
{
    if bs.len() > 0 {
        let pre = bs.drop_last();
        assert(prefix_free(pre)) by {
            assert forall|i: int, j: int|
                0 <= i < pre.len() && 0 <= j < pre.len() && i != j implies !is_prefix_of(
                (#[trigger] pre[i]).0,
                (#[trigger] pre[j]).0,
            ) by {
                assert(pre[i] == bs[i] && pre[j] == bs[j]);
            }
        }
        lemma_without_conflicts(pre, seq);
        let w = without_conflicts(pre, seq);
        assert forall|i: int| 0 <= i < w.len() implies bs.contains(#[trigger] w[i]) by {
            let k = choose|k: int| 0 <= k < pre.len() && pre[k] == w[i];
            assert(bs[k] == w[i]);
        }
        if !conflicts(bs.last().0, seq) {
            let w2 = w.push(bs.last());
            assert forall|i: int, j: int|
                0 <= i < w2.len() && 0 <= j < w2.len() && i != j implies !is_prefix_of(
                (#[trigger] w2[i]).0,
                (#[trigger] w2[j]).0,
            ) by {
                if i == w.len() {
                    let k = choose|k: int| 0 <= k < pre.len() && pre[k] == w2[j];
                    assert(bs[k] == w2[j] && bs[bs.len() - 1] == w2[i]);
                } else if j == w.len() {
                    let k = choose|k: int| 0 <= k < pre.len() && pre[k] == w2[i];
                    assert(bs[k] == w2[i] && bs[bs.len() - 1] == w2[j]);
                } else {
                    assert(w2[i] == w[i] && w2[j] == w[j]);
                }
            }
            assert forall|i: int| 0 <= i < w2.len() implies bs.contains(#[trigger] w2[i]) by {
                if i < w.len() {
                    assert(w2[i] == w[i]);
                } else {
                    assert(bs[bs.len() - 1] == w2[i]);
                }
            }
            assert forall|i: int| 0 <= i < bs.len() && !conflicts((#[trigger] bs[i]).0, seq) implies w2.contains(bs[i]) by {
                if i < pre.len() {
                    assert(pre[i] == bs[i]);
                    let k = choose|k: int| 0 <= k < w.len() && w[k] == pre[i];
                    assert(w2[k] == bs[i]);
                } else {
                    assert(w2[w.len() as int] == bs[i]);
                }
            }
        } else {
            assert forall|i: int| 0 <= i < bs.len() && !conflicts((#[trigger] bs[i]).0, seq) implies w.contains(bs[i]) by {
                assert(i < pre.len());
                assert(pre[i] == bs[i]);
            }
        }
    }
}

impl Keymap {
    #[verifier::type_invariant]
    closed spec fn wf(self) -> bool {
        prefix_free(self@)
    }

    /// A keymap without bindings.
    pub fn new() -> (r: Keymap)
        ensures
            r@ == Seq::<(Seq<KeyPress>, Command)>::empty(),
            prefix_free(r@),
    {
        let r = Keymap { bindings: Vec::new() };
        assert(r@ =~= Seq::<(Seq<KeyPress>, Command)>::empty());
        r
    }

    /// Bind a sequence, replacing any conflicting binding underneath it.
    pub fn insert(&mut self, seq: &[KeyPress], cmd: Command)
        ensures
            final(self)@ == insert_spec(old(self)@, seq@, cmd),
            prefix_free(final(self)@),
    {
        proof {
            use_type_invariant(&*self);
        }
        if seq.len() == 0 {
            return;
        }
        let ghost old_view = self@;
        let mut kept: Vec<(Vec<KeyPress>, Command)> = Vec::new();
        let mut i: usize = 0;
        let n = self.bindings.len();
        let ghost bsv = self.bindings@.map_values(|b: (Vec<KeyPress>, Command)| (b.0@, b.1));
        assert(bsv.subrange(0, 0) =~= Seq::<(Seq<KeyPress>, Command)>::empty());
        assert(kept@.map_values(|b: (Vec<KeyPress>, Command)| (b.0@, b.1)) =~= Seq::<(Seq<KeyPress>, Command)>::empty());
        while i < n
            invariant
                n == self.bindings.len(),
                bsv == self.bindings@.map_values(|b: (Vec<KeyPress>, Command)| (b.0@, b.1)),
                i <= n,
                kept@.map_values(|b: (Vec<KeyPress>, Command)| (b.0@, b.1)) == without_conflicts(
                    bsv.subrange(0, i as int),
                    seq@,
                ),
            decreases n - i,
        {
            let b = &self.bindings[i];
            proof {
                assert(bsv.subrange(0, i + 1).drop_last() =~= bsv.subrange(0, i as int));
                assert(bsv.subrange(0, i + 1).last() == (b.0@, b.1));
            }
            if !conflicting(&b.0, seq) {
                let ghost before = kept@.map_values(|b: (Vec<KeyPress>, Command)| (b.0@, b.1));
                let copy = copy_keys(&b.0);
                kept.push((copy, b.1));
                assert(kept@.map_values(|b: (Vec<KeyPress>, Command)| (b.0@, b.1)) =~= before.push(
                    (b.0@, b.1),
                ));
            }
            i += 1;
        }
        assert(bsv.subrange(0, n as int) =~= bsv);
        proof {
            lemma_without_conflicts(bsv, seq@);
        }
        let ghost before = kept@.map_values(|b: (Vec<KeyPress>, Command)| (b.0@, b.1));
        let sv = slice_keys(seq);
        kept.push((sv, cmd));
        let ghost after = kept@.map_values(|b: (Vec<KeyPress>, Command)| (b.0@, b.1));
        assert(after =~= before.push((seq@, cmd)));
        proof {
            assert(prefix_free(after)) by {
                assert forall|i: int, j: int|
                    0 <= i < after.len() && 0 <= j < after.len() && i != j implies !is_prefix_of(
                    (#[trigger] after[i]).0,
                    (#[trigger] after[j]).0,
                ) by {
                    if i < before.len() && j < before.len() {
                        assert(after[i] == before[i] && after[j] == before[j]);
                    } else if i < before.len() {
                        assert(after[i] == before[i]);
                        assert(!conflicts(before[i].0, seq@));
                    } else {
                        assert(after[j] == before[j]);
                        assert(!conflicts(before[j].0, seq@));
                    }
                }
            }
        }
        self.bindings = kept;
    }

    /// Bind key notation (`"C-c C-c"`), replacing conflicting bindings.
    pub fn bind(&mut self, spec: &str, cmd: Command)
        requires
            parse_keys_spec(spec@) is Ok,
        ensures
            final(self)@ == insert_spec(old(self)@, parse_keys_spec(spec@)->Ok_0, cmd),
    {
        match parse_keys(spec) {
            Ok(seq) => self.insert(seq.as_slice(), cmd),
            Err(_) => {},
        }
    }

    /// What typing `seq` resolves to.
    pub fn lookup(&self, seq: &[KeyPress]) -> (r: Lookup)
        ensures
            r == lookup_spec(self@, seq@),
    {
        proof {
            use_type_invariant(self);
        }
        if seq.len() == 0 {
            return Lookup::Pending;
        }
        let n = self.bindings.len();
        let ghost bsv = self@;
        let mut pending = false;
        let mut i: usize = 0;
        assert(bsv.subrange(0, 0) =~= Seq::<(Seq<KeyPress>, Command)>::empty());
        while i < n
            invariant
                n == self.bindings.len(),
                bsv == self@,
                seq@.len() > 0,
                bsv == self.bindings@.map_values(|b: (Vec<KeyPress>, Command)| (b.0@, b.1)),
                i <= n,
                exact_binding(bsv.subrange(0, i as int), seq@) is None,
                pending <==> exists|k: int|
                    0 <= k < i && is_prefix_of(seq@, (#[trigger] bsv[k]).0) && seq@.len()
                        < bsv[k].0.len(),
            decreases n - i,
        {
            let b = &self.bindings[i];
            proof {
                assert(bsv.subrange(0, i + 1).drop_last() =~= bsv.subrange(0, i as int));
                assert(bsv[i as int] == (b.0@, b.1));
            }
            if keys_equal(&b.0, seq) {
                proof {
                    let pre = bsv.subrange(0, i + 1);
                    assert(pre.last() == bsv[i as int]);
                    assert(exact_binding(pre, seq@) == Some(b.1));
                    lemma_exact_binding_prefix(bsv, i as int + 1, seq@);
                }
                return Lookup::Command(b.1);
            }
            if b.0.len() > seq.len() && is_key_prefix(seq, &b.0) {
                pending = true;
            }
            i += 1;
        }
        assert(bsv.subrange(0, n as int) =~= bsv);
        if pending {
            Lookup::Pending
        } else {
            Lookup::Unbound
        }
    }
}

proof fn lemma_exact_binding_prefix(bs: Seq<(Seq<KeyPress>, Command)>, k: int, q: Seq<KeyPress>)
    requires
        0 <= k <= bs.len(),
        exact_binding(bs.subrange(0, k), q) is Some,
    ensures
        exact_binding(bs, q) == exact_binding(bs.subrange(0, k), q),
    decreases bs.len() - k,
{
    if k < bs.len() {
        assert(bs.subrange(0, k + 1).drop_last() =~= bs.subrange(0, k));
        lemma_exact_binding_prefix(bs, k + 1, q);
    } else {
        assert(bs.subrange(0, k) =~= bs);
    }
}

fn keys_equal(a: &Vec<KeyPress>, b: &[KeyPress]) -> (r: bool)
    ensures
        r == (a@ == b@),
{
    if a.len() != b.len() {
        return false;
    }
    let mut i: usize = 0;
    while i < a.len()
        invariant
            a.len() == b.len(),
            i <= a.len(),
            forall|j: int| 0 <= j < i ==> a@[j] == b@[j],
        decreases a.len() - i,
    {
        if a[i] != b[i] {
            return false;
        }
        i += 1;
    }
    assert(a@ =~= b@);
    true
}

/// Whether `p` is a prefix of `s`.
fn is_key_prefix(p: &[KeyPress], s: &Vec<KeyPress>) -> (r: bool)
    ensures
        r == is_prefix_of(p@, s@),
{
    if p.len() > s.len() {
        return false;
    }
    let mut i: usize = 0;
    while i < p.len()
        invariant
            p.len() <= s.len(),
            i <= p.len(),
            forall|j: int| 0 <= j < i ==> p@[j] == s@[j],
        decreases p.len() - i,
    {
        if p[i] != s[i] {
            assert(s@.subrange(0, p@.len() as int)[i as int] != p@[i as int]);
            return false;
        }
        i += 1;
    }
    assert(s@.subrange(0, p@.len() as int) =~= p@);
    true
}

fn is_key_prefix_rev(p: &Vec<KeyPress>, s: &[KeyPress]) -> (r: bool)
    ensures
        r == is_prefix_of(p@, s@),
{
    if p.len() > s.len() {
        return false;
    }
    let mut i: usize = 0;
    while i < p.len()
        invariant
            p.len() <= s.len(),
            i <= p.len(),
            forall|j: int| 0 <= j < i ==> p@[j] == s@[j],
        decreases p.len() - i,
    {
        if p[i] != s[i] {
            assert(s@.subrange(0, p@.len() as int)[i as int] != p@[i as int]);
            return false;
        }
        i += 1;
    }
    assert(s@.subrange(0, p@.len() as int) =~= p@);
    true
}

fn conflicting(a: &Vec<KeyPress>, b: &[KeyPress]) -> (r: bool)
    ensures
        r == conflicts(a@, b@),
{
    is_key_prefix_rev(a, b) || is_key_prefix(b, a)
}

fn copy_keys(a: &Vec<KeyPress>) -> (r: Vec<KeyPress>)
    ensures
        r@ == a@,
{
    let mut r: Vec<KeyPress> = Vec::new();
    let mut i: usize = 0;
    while i < a.len()
        invariant
            i <= a.len(),
            r@ == a@.subrange(0, i as int),
        decreases a.len() - i,
    {
        r.push(a[i]);
        i += 1;
        assert(r@ =~= a@.subrange(0, i as int));
    }
    assert(a@.subrange(0, a@.len() as int) =~= a@);
    r
}

fn slice_keys(a: &[KeyPress]) -> (r: Vec<KeyPress>)
    ensures
        r@ == a@,
{
    let mut r: Vec<KeyPress> = Vec::new();
    let mut i: usize = 0;
    while i < a.len()
        invariant
            i <= a.len(),
            r@ == a@.subrange(0, i as int),
        decreases a.len() - i,
    {
        r.push(a[i]);
        i += 1;
        assert(r@ =~= a@.subrange(0, i as int));
    }
    assert(a@.subrange(0, a@.len() as int) =~= a@);
    r
}


proof fn lemma_prefix_trans(a: Seq<KeyPress>, b: Seq<KeyPress>, c: Seq<KeyPress>)
    requires
        is_prefix_of(a, b),
        is_prefix_of(b, c),
    ensures
        is_prefix_of(a, c),
{
    assert(c.subrange(0, a.len() as int) =~= c.subrange(0, b.len() as int).subrange(0, a.len() as int));
}

proof fn lemma_prefixes_comparable(a: Seq<KeyPress>, b: Seq<KeyPress>, c: Seq<KeyPress>)
    requires
        is_prefix_of(a, c),
        is_prefix_of(b, c),
    ensures
        conflicts(a, b),
{
    if a.len() <= b.len() {
        assert(b.subrange(0, a.len() as int) =~= c.subrange(0, b.len() as int).subrange(0, a.len() as int));
        assert(c.subrange(0, b.len() as int).subrange(0, a.len() as int) =~= c.subrange(0, a.len() as int));
    } else {
        assert(a.subrange(0, b.len() as int) =~= c.subrange(0, a.len() as int).subrange(0, b.len() as int));
        assert(c.subrange(0, a.len() as int).subrange(0, b.len() as int) =~= c.subrange(0, b.len() as int));
    }
}

proof fn lemma_prefix_refl(a: Seq<KeyPress>)
    ensures
        is_prefix_of(a, a),
{
    assert(a.subrange(0, a.len() as int) =~= a);
}

proof fn lemma_exact_binding_found(bs: Seq<(Seq<KeyPress>, Command)>, q: Seq<KeyPress>)
    ensures
        (exact_binding(bs, q) is Some) <==> (exists|i: int| 0 <= i < bs.len() && (#[trigger] bs[i]).0 == q),
        exact_binding(bs, q) is Some ==> exists|i: int|
            0 <= i < bs.len() && #[trigger] bs[i] == (q, exact_binding(bs, q)->0),
    decreases bs.len(),
{
    if bs.len() > 0 {
        let pre = bs.drop_last();
        lemma_exact_binding_found(pre, q);
        if exact_binding(pre, q) is Some {
            let i = choose|i: int| 0 <= i < pre.len() && #[trigger] pre[i] == (q, exact_binding(pre, q)->0);
            assert(bs[i] == pre[i]);
        } else if bs.last().0 == q {
            assert(bs[bs.len() - 1] == (q, exact_binding(bs, q)->0));
        }
        if exists|i: int| 0 <= i < bs.len() && (#[trigger] bs[i]).0 == q {
            let i = choose|i: int| 0 <= i < bs.len() && (#[trigger] bs[i]).0 == q;
            if i < pre.len() {
                assert(pre[i] == bs[i]);
            }
        }
        if exists|i: int| 0 <= i < pre.len() && (#[trigger] pre[i]).0 == q {
            let i = choose|i: int| 0 <= i < pre.len() && (#[trigger] pre[i]).0 == q;
            assert(bs[i] == pre[i]);
        }
    }
}

proof fn lemma_exact_binding_unique(bs: Seq<(Seq<KeyPress>, Command)>, q: Seq<KeyPress>, i: int)
    requires
        prefix_free(bs),
        0 <= i < bs.len(),
        bs[i].0 == q,
    ensures
        exact_binding(bs, q) == Some(bs[i].1),
{
    lemma_exact_binding_found(bs, q);
    let j = choose|j: int| 0 <= j < bs.len() && #[trigger] bs[j] == (q, exact_binding(bs, q)->0);
    if j != i {
        lemma_prefix_refl(q);
        assert(is_prefix_of(bs[j].0, bs[i].0));
    }
}

/// Binding a key sequence makes it resolve to the bound command.
pub proof fn law_lookup_after_insert(bs: Seq<(Seq<KeyPress>, Command)>, s: Seq<KeyPress>, c: Command)
    requires
        prefix_free(bs),
        s.len() > 0,
    ensures
        lookup_spec(insert_spec(bs, s, c), s) == Lookup::Command(c),
{
    let w = without_conflicts(bs, s);
    lemma_without_conflicts(bs, s);
    lemma_prefix_refl(s);
    assert forall|i: int| 0 <= i < w.len() implies (#[trigger] w[i]).0 != s by {
        assert(!conflicts(w[i].0, s));
    }
    lemma_exact_binding_found(w, s);
    assert(w.push((s, c)).drop_last() =~= w);
}

/// Binding a key sequence leaves what every unrelated sequence (one that is
/// neither a prefix nor an extension of it) resolves to unchanged.
pub proof fn law_insert_keeps_unrelated(
    bs: Seq<(Seq<KeyPress>, Command)>,
    s: Seq<KeyPress>,
    c: Command,
    q: Seq<KeyPress>,
)
    requires
        prefix_free(bs),
        s.len() > 0,
        !conflicts(q, s),
    ensures
        lookup_spec(insert_spec(bs, s, c), q) == lookup_spec(bs, q),
{
    let w = without_conflicts(bs, s);
    let nw = w.push((s, c));
    lemma_without_conflicts(bs, s);
    lemma_prefix_refl(q);
    assert(nw.drop_last() =~= w);
    assert(q != s);
    assert(exact_binding(nw, q) == exact_binding(w, q));
    lemma_exact_binding_found(bs, q);
    lemma_exact_binding_found(w, q);
    if exists|i: int| 0 <= i < bs.len() && (#[trigger] bs[i]).0 == q {
        let i = choose|i: int| 0 <= i < bs.len() && (#[trigger] bs[i]).0 == q;
        lemma_exact_binding_unique(bs, q, i);
        assert(!conflicts(bs[i].0, s));
        assert(w.contains(bs[i]));
        let k = choose|k: int| 0 <= k < w.len() && w[k] == bs[i];
        lemma_exact_binding_unique(w, q, k);
    } else {
        assert forall|k: int| 0 <= k < w.len() implies (#[trigger] w[k]).0 != q by {
            assert(bs.contains(w[k]));
        }
    }
    if extended(nw, q) {
        let i = choose|i: int| 0 <= i < nw.len() && is_prefix_of(q, (#[trigger] nw[i]).0) && q.len() < nw[i].0.len();
        if i == w.len() {
            assert(false);
        } else {
            assert(nw[i] == w[i]);
            assert(bs.contains(w[i]));
            let k = choose|k: int| 0 <= k < bs.len() && bs[k] == w[i];
            assert(is_prefix_of(q, bs[k].0) && q.len() < bs[k].0.len());
        }
    }
    if extended(bs, q) {
        let i = choose|i: int| 0 <= i < bs.len() && is_prefix_of(q, (#[trigger] bs[i]).0) && q.len() < bs[i].0.len();
        if is_prefix_of(bs[i].0, s) {
            lemma_prefix_trans(q, bs[i].0, s);
        }
        if is_prefix_of(s, bs[i].0) {
            lemma_prefixes_comparable(q, s, bs[i].0);
        }
        assert(!conflicts(bs[i].0, s));
        assert(w.contains(bs[i]));
        let k = choose|k: int| 0 <= k < w.len() && w[k] == bs[i];
        assert(nw[k] == w[k]);
        assert(is_prefix_of(q, nw[k].0) && q.len() < nw[k].0.len());
    }
}


/// The keys that can follow `p` (each once, in the order of the bindings
/// that first continue with it).
pub open spec fn next_keys(bs: Seq<(Seq<KeyPress>, Command)>, p: Seq<KeyPress>) -> Seq<KeyPress>
    decreases bs.len(),
{
    if bs.len() == 0 {
        Seq::empty()
    } else {
        let ks = next_keys(bs.drop_last(), p);
        let b = bs.last().0;
        if is_prefix_of(p, b) && p.len() < b.len() && !ks.contains(b[p.len() as int]) {
            ks.push(b[p.len() as int])
        } else {
            ks
        }
    }
}

/// What the key `k` after `p` leads to: a command's name, or `+prefix`.
pub open spec fn cand_label(bs: Seq<(Seq<KeyPress>, Command)>, p: Seq<KeyPress>, k: KeyPress) -> Seq<char> {
    match lookup_spec(bs, p.push(k)) {
        Lookup::Command(c) => command_name(c),
        _ => "+prefix"@,
    }
}

/// The continuations after `p`, as (key notation, label) pairs.
pub open spec fn candidates_spec(bs: Seq<(Seq<KeyPress>, Command)>, p: Seq<KeyPress>) -> Seq<
    (Seq<char>, Seq<char>),
> {
    next_keys(bs, p).map_values(|k: KeyPress| (format_key_spec(k), cand_label(bs, p, k)))
}

/// Every binding as (sequence notation, command).
pub open spec fn bindings_spec(bs: Seq<(Seq<KeyPress>, Command)>) -> Seq<(Seq<char>, Command)> {
    bs.map_values(|b: (Seq<KeyPress>, Command)| (format_keys_spec(b.0), b.1))
}

fn contains_key(ks: &Vec<KeyPress>, k: KeyPress) -> (r: bool)
    ensures
        r == ks@.contains(k),
{
    let mut i: usize = 0;
    while i < ks.len()
        invariant
            i <= ks.len(),
            forall|j: int| 0 <= j < i ==> ks@[j] != k,
        decreases ks.len() - i,
    {
        if ks[i] == k {
            return true;
        }
        i += 1;
    }
    false
}

fn extend_keys(p: &[KeyPress], k: KeyPress) -> (r: Vec<KeyPress>)
    ensures
        r@ == p@.push(k),
{
    let mut r = slice_keys(p);
    r.push(k);
    r
}

impl Keymap {
    /// The keys that can follow `prefix`, with what each leads to, sorted
    /// (the which-key popup).
    pub fn candidates(&self, prefix: &[KeyPress]) -> (r: Vec<(String, String)>)
        ensures
            sorted_pairs(pair_views(r@)),
            pair_views(r@).to_multiset() == candidates_spec(self@, prefix@).to_multiset(),
    {
        let n = self.bindings.len();
        let ghost bsv = self@;
        let ghost p = prefix@;
        let mut keys: Vec<KeyPress> = Vec::new();
        let mut out: Vec<(String, String)> = Vec::new();
        let mut i: usize = 0;
        assert(bsv.subrange(0, 0) =~= Seq::<(Seq<KeyPress>, Command)>::empty());
        assert(pair_views(out@) =~= Seq::<(Seq<char>, Seq<char>)>::empty());
        while i < n
            invariant
                n == self.bindings.len(),
                bsv == self@,
                bsv == self.bindings@.map_values(|b: (Vec<KeyPress>, Command)| (b.0@, b.1)),
                p == prefix@,
                i <= n,
                keys@ == next_keys(bsv.subrange(0, i as int), p),
                pair_views(out@) == keys@.map_values(
                    |k: KeyPress| (format_key_spec(k), cand_label(bsv, p, k)),
                ),
            decreases n - i,
        {
            let b = &self.bindings[i];
            proof {
                assert(bsv.subrange(0, i + 1).drop_last() =~= bsv.subrange(0, i as int));
                assert(bsv.subrange(0, i + 1).last() == bsv[i as int]);
                assert(bsv[i as int] == (b.0@, b.1));
            }
            if prefix.len() < b.0.len() && is_key_prefix(prefix, &b.0) {
                let k = b.0[prefix.len()];
                if !contains_key(&keys, k) {
                    let ext = extend_keys(prefix, k);
                    let label = match self.lookup(ext.as_slice()) {
                        Lookup::Command(c) => String::from_str(info(c).name),
                        _ => String::from_str("+prefix"),
                    };
                    let ghost before = pair_views(out@);
                    let ghost kbefore = keys@;
                    keys.push(k);
                    out.push((format_key(&k), label));
                    proof {
                        assert(pair_views(out@) =~= before.push((format_key_spec(k), cand_label(bsv, p, k))));
                        assert(keys@.map_values(|k: KeyPress| (format_key_spec(k), cand_label(bsv, p, k)))
                            =~= kbefore.map_values(|k: KeyPress| (format_key_spec(k), cand_label(bsv, p, k))).push(
                            (format_key_spec(k), cand_label(bsv, p, k)),
                        ));
                    }
                }
            }
            i += 1;
        }
        assert(bsv.subrange(0, n as int) =~= bsv);
        sort_pairs(out)
    }

    /// Every (sequence, command) binding, sorted by the sequence's notation
    /// (the help buffer).
    pub fn bindings(&self) -> (r: Vec<(String, Command)>)
        ensures
            sorted_by_key(keyed_views(r@)),
            keyed_views(r@).to_multiset() == bindings_spec(self@).to_multiset(),
    {
        let n = self.bindings.len();
        let ghost bsv = self@;
        let mut out: Vec<(String, Command)> = Vec::new();
        let mut i: usize = 0;
        while i < n
            invariant
                n == self.bindings.len(),
                bsv == self.bindings@.map_values(|b: (Vec<KeyPress>, Command)| (b.0@, b.1)),
                i <= n,
                keyed_views(out@) == bindings_spec(bsv.subrange(0, i as int)),
            decreases n - i,
        {
            let b = &self.bindings[i];
            let ghost before = keyed_views(out@);
            out.push((format_keys(b.0.as_slice()), b.1));
            proof {
                assert(bsv[i as int] == (b.0@, b.1));
                assert(keyed_views(out@) =~= before.push((format_keys_spec(b.0@), b.1)));
                assert(bindings_spec(bsv.subrange(0, i + 1)) =~= bindings_spec(bsv.subrange(0, i as int)).push(
                    (format_keys_spec(b.0@), b.1),
                ));
            }
            i += 1;
        }
        assert(bsv.subrange(0, n as int) =~= bsv);
        sort_by_key(out)
    }
}


// ---------------------------------------------------------------------------
// Layered keymaps
// ---------------------------------------------------------------------------

/// Buffer kinds, used to pick the buffer-local keymap.
#[derive(Debug, Clone, Copy, PartialEq, Eq, Hash, Structural)]
pub enum PaneKind {
    Status,
    Revision,
    Log,
    ProcessLog,
    /// Branches, remote-tracking branches and tags (Magit's `magit-show-refs`).
    Refs,
    /// The interactive-rebase todo editor (Magit's git-rebase-mode).
    RebaseTodo,
}

/// The buffer-local keymap of `kind`: the first entry for it.
pub open spec fn local_entry(ls: Seq<(PaneKind, Seq<(Seq<KeyPress>, Command)>)>, kind: PaneKind) -> Option<
    Seq<(Seq<KeyPress>, Command)>,
>
    decreases ls.len(),
{
    if ls.len() == 0 {
        None
    } else if ls[0].0 == kind {
        Some(ls[0].1)
    } else {
        local_entry(ls.drop_first(), kind)
    }
}

/// Buffer-local resolution shadows global: a local command wins, then a
/// pending sequence in either map, then whatever the global map says.
pub open spec fn layered(local: Lookup, global: Lookup) -> Lookup {
    match (local, global) {
        (Lookup::Command(c), _) => Lookup::Command(c),
        (Lookup::Pending, _) => Lookup::Pending,
        (_, Lookup::Pending) => Lookup::Pending,
        (_, g) => g,
    }
}

/// The local candidates, then each global candidate whose key is not
/// offered yet.
pub open spec fn merge_candidates(acc: Seq<(Seq<char>, Seq<char>)>, g: Seq<(Seq<char>, Seq<char>)>) -> Seq<
    (Seq<char>, Seq<char>),
>
    decreases g.len(),
{
    if g.len() == 0 {
        acc
    } else {
        let rest = merge_candidates(acc, g.drop_last());
        if exists|i: int| 0 <= i < rest.len() && (#[trigger] rest[i]).0 == g.last().0 {
            rest
        } else {
            rest.push(g.last())
        }
    }
}

/// Layered keymaps: buffer-local shadows global.
#[derive(Debug)]
pub struct Keymaps {
    pub global: Keymap,
    pub local: Vec<(PaneKind, Keymap)>,
}

impl Keymaps {
    pub open spec fn locals(&self) -> Seq<(PaneKind, Seq<(Seq<KeyPress>, Command)>)> {
        self.local@.map_values(|e: (PaneKind, Keymap)| (e.0, e.1@))
    }

    /// No bindings at all.
    pub fn new() -> (r: Keymaps)
        ensures
            r.global@ == Seq::<(Seq<KeyPress>, Command)>::empty(),
            r.locals() == Seq::<(PaneKind, Seq<(Seq<KeyPress>, Command)>)>::empty(),
    {
        let r = Keymaps { global: Keymap::new(), local: Vec::new() };
        assert(r.locals() =~= Seq::<(PaneKind, Seq<(Seq<KeyPress>, Command)>)>::empty());
        r
    }

    /// The position of the local keymap of `kind`.
    fn local_index(&self, kind: PaneKind) -> (r: Option<usize>)
        ensures
            match r {
                Some(i) => i < self.local@.len() && local_entry(self.locals(), kind) == Some(
                    self.locals()[i as int].1,
                ) && self.locals()[i as int].0 == kind && forall|j: int|
                    0 <= j < i ==> (#[trigger] self.locals()[j]).0 != kind,
                None => local_entry(self.locals(), kind) is None,
            },
    {
        let ghost ls = self.locals();
        let mut i: usize = 0;
        assert(ls.subrange(0, ls.len() as int) =~= ls);
        while i < self.local.len()
            invariant
                ls == self.locals(),
                i <= self.local@.len(),
                local_entry(ls, kind) == local_entry(ls.subrange(i as int, ls.len() as int), kind),
                forall|j: int| 0 <= j < i ==> (#[trigger] ls[j]).0 != kind,
            decreases self.local.len() - i,
        {
            proof {
                let rest = ls.subrange(i as int, ls.len() as int);
                assert(rest[0] == ls[i as int]);
                assert(rest.drop_first() =~= ls.subrange(i + 1, ls.len() as int));
            }
            if self.local[i].0 == kind {
                return Some(i);
            }
            i += 1;
        }
        assert(ls.subrange(i as int, ls.len() as int) =~= Seq::<(PaneKind, Seq<(Seq<KeyPress>, Command)>)>::empty());
        None
    }

    /// The buffer-local keymap of `kind`, if it has one.
    pub fn local_for(&self, kind: PaneKind) -> (r: Option<&Keymap>)
        ensures
            match r {
                Some(m) => local_entry(self.locals(), kind) == Some(m@),
                None => local_entry(self.locals(), kind) is None,
            },
    {
        match self.local_index(kind) {
            Some(i) => Some(&self.local[i].1),
            None => None,
        }
    }

    /// Take the local keymap of `kind` out (an empty one when it has none);
    /// the other kinds keep theirs.
    pub fn take_local(&mut self, kind: PaneKind) -> (r: Keymap)
        ensures
            r@ == match local_entry(old(self).locals(), kind) {
                Some(m) => m,
                None => Seq::<(Seq<KeyPress>, Command)>::empty(),
            },
            final(self).global@ == old(self).global@,
            forall|k: PaneKind| k != kind ==> local_entry(final(self).locals(), k) == local_entry(
                old(self).locals(),
                k,
            ),
    {
        let ghost ls = self.locals();
        match self.local_index(kind) {
            Some(i) => {
                let (k, m) = self.local.remove(i);
                let fresh = Keymap::new();
                let ghost fv = fresh@;
                self.local.insert(i, (k, fresh));
                proof {
                    assert(self.locals() =~= ls.update(i as int, (kind, fv)));
                    lemma_local_entry_update(ls, i as int, kind, fv);
                }
                m
            },
            None => Keymap::new(),
        }
    }

    /// Make `m` the local keymap of `kind`.
    pub fn set_local(&mut self, kind: PaneKind, m: Keymap)
        ensures
            local_entry(final(self).locals(), kind) == Some(m@),
            final(self).global@ == old(self).global@,
            forall|k: PaneKind| k != kind ==> local_entry(final(self).locals(), k) == local_entry(
                old(self).locals(),
                k,
            ),
    {
        let ghost ls = self.locals();
        let ghost mv = m@;
        match self.local_index(kind) {
            Some(i) => {
                let _ = self.local.remove(i);
                self.local.insert(i, (kind, m));
                proof {
                    assert(self.locals() =~= ls.update(i as int, (kind, mv)));
                    lemma_local_entry_update(ls, i as int, kind, mv);
                }
            },
            None => {
                self.local.push((kind, m));
                proof {
                    assert(self.locals() =~= ls.push((kind, mv)));
                    lemma_local_entry_push(ls, kind, mv);
                }
            },
        }
    }

    /// What typing `seq` resolves to in a buffer of `kind`.
    pub fn lookup(&self, kind: PaneKind, seq: &[KeyPress]) -> (r: Lookup)
        ensures
            r == layered(
                match local_entry(self.locals(), kind) {
                    Some(m) => lookup_spec(m, seq@),
                    None => Lookup::Unbound,
                },
                lookup_spec(self.global@, seq@),
            ),
    {
        let local = match self.local_for(kind) {
            Some(m) => m.lookup(seq),
            None => Lookup::Unbound,
        };
        let global = self.global.lookup(seq);
        match (local, global) {
            (Lookup::Command(c), _) => Lookup::Command(c),
            (Lookup::Pending, _) => Lookup::Pending,
            (_, Lookup::Pending) => Lookup::Pending,
            (_, g) => g,
        }
    }

    /// The which-key candidates in a buffer of `kind`: the local ones, then
    /// each global one whose key the local map does not offer, sorted.
    pub fn candidates(&self, kind: PaneKind, prefix: &[KeyPress]) -> (r: Vec<(String, String)>)
        ensures
            sorted_pairs(pair_views(r@)),
            exists|l: Seq<(Seq<char>, Seq<char>)>, g: Seq<(Seq<char>, Seq<char>)>|
                #![trigger merge_candidates(l, g)]
                l.to_multiset() == (match local_entry(self.locals(), kind) {
                    Some(m) => candidates_spec(m, prefix@),
                    None => Seq::<(Seq<char>, Seq<char>)>::empty(),
                }).to_multiset() && sorted_pairs(g) && g.to_multiset() == candidates_spec(
                    self.global@,
                    prefix@,
                ).to_multiset() && pair_views(r@).to_multiset() == merge_candidates(l, g).to_multiset(),
    {
        let ghost lc = match local_entry(self.locals(), kind) {
            Some(m) => candidates_spec(m, prefix@),
            None => Seq::<(Seq<char>, Seq<char>)>::empty(),
        };
        let mut out: Vec<(String, String)> = Vec::new();
        match self.local_for(kind) {
            Some(m) => {
                out = m.candidates(prefix);
            },
            None => {
                assert(pair_views(out@) =~= Seq::<(Seq<char>, Seq<char>)>::empty());
            },
        }
        let ghost l = pair_views(out@);
        assert(l.to_multiset() == lc.to_multiset());
        let global = self.global.candidates(prefix);
        let ghost g = pair_views(global@);
        let mut i: usize = 0;
        assert(g.subrange(0, 0) =~= Seq::<(Seq<char>, Seq<char>)>::empty());
        while i < global.len()
            invariant
                g == pair_views(global@),
                i <= global.len(),
                pair_views(out@) == merge_candidates(l, g.subrange(0, i as int)),
            decreases global.len() - i,
        {
            let key = chars_of(global[i].0.as_str());
            let mut found = false;
            let mut j: usize = 0;
            while j < out.len()
                invariant
                    j <= out.len(),
                    key@ == global@[i as int].0@,
                    found <==> exists|t: int| 0 <= t < j && (#[trigger] pair_views(out@)[t]).0 == key@,
                decreases out.len() - j,
            {
                let other = chars_of(out[j].0.as_str());
                assert(pair_views(out@)[j as int].0 == other@);
                if eq_chars(&other, &key) {
                    found = true;
                }
                j += 1;
            }
            proof {
                assert(g.subrange(0, i + 1).drop_last() =~= g.subrange(0, i as int));
                assert(g.subrange(0, i + 1).last() == g[i as int]);
                assert(g[i as int] == (global@[i as int].0@, global@[i as int].1@));
            }
            if !found {
                let ghost before = pair_views(out@);
                out.push((global[i].0.clone(), global[i].1.clone()));
                assert(pair_views(out@) =~= before.push(g[i as int]));
            }
            i += 1;
        }
        assert(g.subrange(0, global.len() as int) =~= g);
        let r = sort_pairs(out);
        assert(pair_views(r@).to_multiset() == merge_candidates(l, g).to_multiset());
        assert(sorted_pairs(g));
        assert(g.to_multiset() == candidates_spec(self.global@, prefix@).to_multiset());
        r
    }
}

proof fn lemma_local_entry_update(
    ls: Seq<(PaneKind, Seq<(Seq<KeyPress>, Command)>)>,
    i: int,
    kind: PaneKind,
    m: Seq<(Seq<KeyPress>, Command)>,
)
    requires
        0 <= i < ls.len(),
        ls[i].0 == kind,
        forall|j: int| 0 <= j < i ==> (#[trigger] ls[j]).0 != kind,
    ensures
        local_entry(ls.update(i, (kind, m)), kind) == Some(m),
        forall|k: PaneKind| k != kind ==> local_entry(ls.update(i, (kind, m)), k) == local_entry(ls, k),
    decreases ls.len(),
{
    let nl = ls.update(i, (kind, m));
    if i == 0 {
        assert(nl.drop_first() =~= ls.drop_first());
        assert forall|k: PaneKind| k != kind implies local_entry(nl, k) == local_entry(ls, k) by {
            assert(nl[0].0 != k && ls[0].0 != k);
        }
    } else {
        assert(ls[0].0 != kind);
        assert(nl.drop_first() =~= ls.drop_first().update(i - 1, (kind, m)));
        assert forall|j: int| 0 <= j < i - 1 implies (#[trigger] ls.drop_first()[j]).0 != kind by {
            assert(ls.drop_first()[j] == ls[j + 1]);
        }
        lemma_local_entry_update(ls.drop_first(), i - 1, kind, m);
        assert(nl[0] == ls[0]);
        assert forall|k: PaneKind| k != kind implies local_entry(nl, k) == local_entry(ls, k) by {
            if ls[0].0 == k {
                assert(local_entry(nl, k) == Some(nl[0].1));
            } else {
                assert(local_entry(nl, k) == local_entry(nl.drop_first(), k));
                assert(local_entry(ls, k) == local_entry(ls.drop_first(), k));
            }
        }
    }
}

proof fn lemma_local_entry_push(
    ls: Seq<(PaneKind, Seq<(Seq<KeyPress>, Command)>)>,
    kind: PaneKind,
    m: Seq<(Seq<KeyPress>, Command)>,
)
    requires
        local_entry(ls, kind) is None,
    ensures
        local_entry(ls.push((kind, m)), kind) == Some(m),
        forall|k: PaneKind| k != kind ==> local_entry(ls.push((kind, m)), k) == local_entry(ls, k),
    decreases ls.len(),
{
    let nl = ls.push((kind, m));
    if ls.len() > 0 {
        assert(nl[0] == ls[0]);
        assert(ls[0].0 != kind);
        assert(nl.drop_first() =~= ls.drop_first().push((kind, m)));
        lemma_local_entry_push(ls.drop_first(), kind, m);
        assert forall|k: PaneKind| k != kind implies local_entry(nl, k) == local_entry(ls, k) by {
            if ls[0].0 == k {
                assert(local_entry(nl, k) == Some(nl[0].1));
            } else {
                assert(local_entry(nl, k) == local_entry(nl.drop_first(), k));
                assert(local_entry(ls, k) == local_entry(ls.drop_first(), k));
            }
        }
    } else {
        assert(nl.drop_first() =~= ls);
        assert forall|k: PaneKind| k != kind implies local_entry(nl, k) == local_entry(ls, k) by {
            assert(nl[0].0 != k);
            assert(local_entry(nl.drop_first(), k) is None);
        }
    }
}

pub open spec fn kp_char(c: char) -> KeyPress {
    KeyPress { code: KeyCode::Char(c), mods: KeyModifiers { ctrl: false, alt: false, shift: false } }
}

pub open spec fn kp_ctrl(c: char) -> KeyPress {
    KeyPress { code: KeyCode::Char(c), mods: KeyModifiers { ctrl: true, alt: false, shift: false } }
}

pub open spec fn kp_alt(c: char) -> KeyPress {
    KeyPress { code: KeyCode::Char(c), mods: KeyModifiers { ctrl: false, alt: true, shift: false } }
}

pub open spec fn kp_code(code: KeyCode) -> KeyPress {
    KeyPress { code, mods: KeyModifiers { ctrl: false, alt: false, shift: false } }
}

fn one(a: KeyPress) -> (r: Vec<KeyPress>)
    ensures
        r@ == seq![a],
{
    let mut r = Vec::new();
    r.push(a);
    r
}

fn two(a: KeyPress, b: KeyPress) -> (r: Vec<KeyPress>)
    ensures
        r@ == seq![a, b],
{
    let mut r = Vec::new();
    r.push(a);
    r.push(b);
    r
}

fn key_char(c: char) -> (r: KeyPress)
    ensures
        r == kp_char(c),
{
    KeyPress::new(KeyCode::Char(c), KeyModifiers::none())
}

fn key_ctrl(c: char) -> (r: KeyPress)
    ensures
        r == kp_ctrl(c),
{
    KeyPress::new(KeyCode::Char(c), KeyModifiers::control())
}

fn key_alt(c: char) -> (r: KeyPress)
    ensures
        r == kp_alt(c),
{
    KeyPress::new(KeyCode::Char(c), KeyModifiers::alt())
}

fn key_code(code: KeyCode) -> (r: KeyPress)
    ensures
        r == kp_code(code),
{
    KeyPress::new(code, KeyModifiers::none())
}

pub open spec fn binding_views(v: Seq<(Vec<KeyPress>, Command)>) -> Seq<(Seq<KeyPress>, Command)> {
    v.map_values(|b: (Vec<KeyPress>, Command)| (b.0@, b.1))
}

/// Binding each pair of `list` in turn.
pub open spec fn insert_all(bs: Seq<(Seq<KeyPress>, Command)>, list: Seq<(Seq<KeyPress>, Command)>) -> Seq<
    (Seq<KeyPress>, Command),
>
    decreases list.len(),
{
    if list.len() == 0 {
        bs
    } else {
        insert_spec(insert_all(bs, list.drop_last()), list.last().0, list.last().1)
    }
}

/// The built-in global bindings. j/k/n/N, the g and z prefixes and V keep
/// their vim roles, so revert sits on `_`, discard on `x`, reset on `O` and
/// stash on `Z`.
pub open spec fn default_global_bindings() -> Seq<(Seq<KeyPress>, Command)> {
    seq![
        (seq![kp_char('q')], Command::Quit),
        (seq![kp_char('g'), kp_char('r')], Command::Refresh),
        (seq![kp_char('j')], Command::Nav(NavCmd::MoveDown)),
        (seq![kp_code(KeyCode::Down)], Command::Nav(NavCmd::MoveDown)),
        (seq![kp_char('k')], Command::Nav(NavCmd::MoveUp)),
        (seq![kp_code(KeyCode::Up)], Command::Nav(NavCmd::MoveUp)),
        (seq![kp_ctrl('d')], Command::Nav(NavCmd::HalfPageDown)),
        (seq![kp_ctrl('u')], Command::Nav(NavCmd::HalfPageUp)),
        (seq![kp_ctrl('f')], Command::Nav(NavCmd::PageDown)),
        (seq![kp_ctrl('b')], Command::Nav(NavCmd::PageUp)),
        (seq![kp_code(KeyCode::PageDown)], Command::Nav(NavCmd::HalfPageDown)),
        (seq![kp_code(KeyCode::PageUp)], Command::Nav(NavCmd::HalfPageUp)),
        (seq![kp_code(KeyCode::Home)], Command::Nav(NavCmd::GotoTop)),
        (seq![kp_char('g'), kp_char('g')], Command::Nav(NavCmd::GotoTop)),
        (seq![kp_code(KeyCode::End)], Command::Nav(NavCmd::GotoBottom)),
        (seq![kp_char('G')], Command::Nav(NavCmd::GotoBottom)),
        (seq![kp_ctrl('j')], Command::Nav(NavCmd::NextSection)),
        (seq![kp_char('g'), kp_char('j')], Command::Nav(NavCmd::NextSection)),
        (seq![kp_ctrl('k')], Command::Nav(NavCmd::PrevSection)),
        (seq![kp_char('g'), kp_char('k')], Command::Nav(NavCmd::PrevSection)),
        (seq![kp_char('g'), kp_char('h')], Command::Nav(NavCmd::ParentSection)),
        (seq![kp_char('^')], Command::Nav(NavCmd::ParentSection)),
        (seq![kp_code(KeyCode::Tab)], Command::ToggleSection),
        (seq![kp_char('z'), kp_char('a')], Command::ToggleSection),
        (seq![kp_code(KeyCode::Enter)], Command::Visit),
        (seq![kp_char('/')], Command::Search),
        (seq![kp_char('n')], Command::SearchNext),
        (seq![kp_char('N')], Command::SearchPrev),
        (seq![kp_char('c')], Command::Transient(Menu::Commit)),
        (seq![kp_char('b')], Command::Transient(Menu::Branch)),
        (seq![kp_char('m')], Command::Transient(Menu::Merge)),
        (seq![kp_char('r')], Command::Transient(Menu::Rebase)),
        (seq![kp_char('A')], Command::Transient(Menu::CherryPick)),
        (seq![kp_char('_')], Command::Transient(Menu::Revert)),
        (seq![kp_char('O')], Command::Transient(Menu::Reset)),
        (seq![kp_char('Z')], Command::Transient(Menu::Stash)),
        (seq![kp_char('t')], Command::Transient(Menu::Tag)),
        (seq![kp_char('M')], Command::Transient(Menu::Remote)),
        (seq![kp_char('p')], Command::Transient(Menu::Push)),
        (seq![kp_char('P')], Command::Transient(Menu::Push)),
        (seq![kp_char('F')], Command::Transient(Menu::Pull)),
        (seq![kp_char('f')], Command::Transient(Menu::Fetch)),
        (seq![kp_char('l')], Command::Transient(Menu::Log)),
        (seq![kp_char('o')], Command::Transient(Menu::Submodule)),
        (seq![kp_char('W')], Command::Transient(Menu::Worktree)),
        (seq![kp_char('y'), kp_char('s')], Command::Copy),
        (seq![kp_char('y'), kp_char('r')], Command::ShowRefs),
        (seq![kp_char('y'), kp_char('b')], Command::CopyRevision),
        (seq![kp_char('?')], Command::Help),
        (seq![kp_char('`')], Command::ProcessLog),
    ]
}

/// The built-in bindings of the status buffer.
pub open spec fn default_status_bindings() -> Seq<(Seq<KeyPress>, Command)> {
    seq![
        (seq![kp_char('s')], Command::Stage),
        (seq![kp_char('u')], Command::Unstage),
        (seq![kp_char('S')], Command::StageAll),
        (seq![kp_char('U')], Command::UnstageAll),
        (seq![kp_char('x')], Command::Discard),
    ]
}

/// The built-in bindings of the rebase-todo buffer (git-rebase-mode's keys,
/// with drop on `d` and commits moving with `M-j`/`M-k`, as j/k navigate).
pub open spec fn default_todo_bindings() -> Seq<(Seq<KeyPress>, Command)> {
    seq![
        (seq![kp_char('p')], Command::Todo(TodoCmd::Pick)),
        (seq![kp_char('r')], Command::Todo(TodoCmd::Reword)),
        (seq![kp_char('e')], Command::Todo(TodoCmd::Edit)),
        (seq![kp_char('s')], Command::Todo(TodoCmd::Squash)),
        (seq![kp_char('f')], Command::Todo(TodoCmd::Fixup)),
        (seq![kp_char('d')], Command::Todo(TodoCmd::Drop)),
        (seq![kp_alt('k')], Command::Todo(TodoCmd::MoveUp)),
        (seq![kp_alt('j')], Command::Todo(TodoCmd::MoveDown)),
        (seq![kp_ctrl('c'), kp_ctrl('c')], Command::Todo(TodoCmd::Confirm)),
        (seq![kp_ctrl('c'), kp_ctrl('k')], Command::Todo(TodoCmd::Abort)),
    ]
}

fn global_list() -> (r: Vec<(Vec<KeyPress>, Command)>)
    ensures
        binding_views(r@) == default_global_bindings(),
{
    let mut v: Vec<(Vec<KeyPress>, Command)> = Vec::new();
    v.push((one(key_char('q')), Command::Quit));
    v.push((two(key_char('g'), key_char('r')), Command::Refresh));
    v.push((one(key_char('j')), Command::Nav(NavCmd::MoveDown)));
    v.push((one(key_code(KeyCode::Down)), Command::Nav(NavCmd::MoveDown)));
    v.push((one(key_char('k')), Command::Nav(NavCmd::MoveUp)));
    v.push((one(key_code(KeyCode::Up)), Command::Nav(NavCmd::MoveUp)));
    v.push((one(key_ctrl('d')), Command::Nav(NavCmd::HalfPageDown)));
    v.push((one(key_ctrl('u')), Command::Nav(NavCmd::HalfPageUp)));
    v.push((one(key_ctrl('f')), Command::Nav(NavCmd::PageDown)));
    v.push((one(key_ctrl('b')), Command::Nav(NavCmd::PageUp)));
    v.push((one(key_code(KeyCode::PageDown)), Command::Nav(NavCmd::HalfPageDown)));
    v.push((one(key_code(KeyCode::PageUp)), Command::Nav(NavCmd::HalfPageUp)));
    v.push((one(key_code(KeyCode::Home)), Command::Nav(NavCmd::GotoTop)));
    v.push((two(key_char('g'), key_char('g')), Command::Nav(NavCmd::GotoTop)));
    v.push((one(key_code(KeyCode::End)), Command::Nav(NavCmd::GotoBottom)));
    v.push((one(key_char('G')), Command::Nav(NavCmd::GotoBottom)));
    v.push((one(key_ctrl('j')), Command::Nav(NavCmd::NextSection)));
    v.push((two(key_char('g'), key_char('j')), Command::Nav(NavCmd::NextSection)));
    v.push((one(key_ctrl('k')), Command::Nav(NavCmd::PrevSection)));
    v.push((two(key_char('g'), key_char('k')), Command::Nav(NavCmd::PrevSection)));
    v.push((two(key_char('g'), key_char('h')), Command::Nav(NavCmd::ParentSection)));
    v.push((one(key_char('^')), Command::Nav(NavCmd::ParentSection)));
    v.push((one(key_code(KeyCode::Tab)), Command::ToggleSection));
    v.push((two(key_char('z'), key_char('a')), Command::ToggleSection));
    v.push((one(key_code(KeyCode::Enter)), Command::Visit));
    v.push((one(key_char('/')), Command::Search));
    v.push((one(key_char('n')), Command::SearchNext));
    v.push((one(key_char('N')), Command::SearchPrev));
    v.push((one(key_char('c')), Command::Transient(Menu::Commit)));
    v.push((one(key_char('b')), Command::Transient(Menu::Branch)));
    v.push((one(key_char('m')), Command::Transient(Menu::Merge)));
    v.push((one(key_char('r')), Command::Transient(Menu::Rebase)));
    v.push((one(key_char('A')), Command::Transient(Menu::CherryPick)));
    v.push((one(key_char('_')), Command::Transient(Menu::Revert)));
    v.push((one(key_char('O')), Command::Transient(Menu::Reset)));
    v.push((one(key_char('Z')), Command::Transient(Menu::Stash)));
    v.push((one(key_char('t')), Command::Transient(Menu::Tag)));
    v.push((one(key_char('M')), Command::Transient(Menu::Remote)));
    v.push((one(key_char('p')), Command::Transient(Menu::Push)));
    v.push((one(key_char('P')), Command::Transient(Menu::Push)));
    v.push((one(key_char('F')), Command::Transient(Menu::Pull)));
    v.push((one(key_char('f')), Command::Transient(Menu::Fetch)));
    v.push((one(key_char('l')), Command::Transient(Menu::Log)));
    v.push((one(key_char('o')), Command::Transient(Menu::Submodule)));
    v.push((one(key_char('W')), Command::Transient(Menu::Worktree)));
    v.push((two(key_char('y'), key_char('s')), Command::Copy));
    v.push((two(key_char('y'), key_char('r')), Command::ShowRefs));
    v.push((two(key_char('y'), key_char('b')), Command::CopyRevision));
    v.push((one(key_char('?')), Command::Help));
    v.push((one(key_char('`')), Command::ProcessLog));
    assert(binding_views(v@) =~= default_global_bindings());
    v
}

fn status_list() -> (r: Vec<(Vec<KeyPress>, Command)>)
    ensures
        binding_views(r@) == default_status_bindings(),
{
    let mut v: Vec<(Vec<KeyPress>, Command)> = Vec::new();
    v.push((one(key_char('s')), Command::Stage));
    v.push((one(key_char('u')), Command::Unstage));
    v.push((one(key_char('S')), Command::StageAll));
    v.push((one(key_char('U')), Command::UnstageAll));
    v.push((one(key_char('x')), Command::Discard));
    assert(binding_views(v@) =~= default_status_bindings());
    v
}

fn todo_list() -> (r: Vec<(Vec<KeyPress>, Command)>)
    ensures
        binding_views(r@) == default_todo_bindings(),
{
    let mut v: Vec<(Vec<KeyPress>, Command)> = Vec::new();
    v.push((one(key_char('p')), Command::Todo(TodoCmd::Pick)));
    v.push((one(key_char('r')), Command::Todo(TodoCmd::Reword)));
    v.push((one(key_char('e')), Command::Todo(TodoCmd::Edit)));
    v.push((one(key_char('s')), Command::Todo(TodoCmd::Squash)));
    v.push((one(key_char('f')), Command::Todo(TodoCmd::Fixup)));
    v.push((one(key_char('d')), Command::Todo(TodoCmd::Drop)));
    v.push((one(key_alt('k')), Command::Todo(TodoCmd::MoveUp)));
    v.push((one(key_alt('j')), Command::Todo(TodoCmd::MoveDown)));
    v.push((two(key_ctrl('c'), key_ctrl('c')), Command::Todo(TodoCmd::Confirm)));
    v.push((two(key_ctrl('c'), key_ctrl('k')), Command::Todo(TodoCmd::Abort)));
    assert(binding_views(v@) =~= default_todo_bindings());
    v
}


fn keymap_of(list: Vec<(Vec<KeyPress>, Command)>) -> (r: Keymap)
    ensures
        r@ == insert_all(Seq::empty(), binding_views(list@)),
{
    let mut km = Keymap::new();
    let ghost lv = binding_views(list@);
    let mut i: usize = 0;
    assert(lv.subrange(0, 0) =~= Seq::<(Seq<KeyPress>, Command)>::empty());
    while i < list.len()
        invariant
            lv == binding_views(list@),
            i <= list.len(),
            km@ == insert_all(Seq::empty(), lv.subrange(0, i as int)),
        decreases list.len() - i,
    {
        km.insert(list[i].0.as_slice(), list[i].1);
        proof {
            assert(lv.subrange(0, i + 1).drop_last() =~= lv.subrange(0, i as int));
            assert(lv.subrange(0, i + 1).last() == lv[i as int]);
        }
        i += 1;
    }
    assert(lv.subrange(0, list.len() as int) =~= lv);
    km
}

/// The built-in keymaps: the global map, and local maps for the status
/// and rebase-todo buffers. User config is merged on top of these.
pub fn default_keymaps() -> (r: Keymaps)
    ensures
        r.global@ == insert_all(Seq::empty(), default_global_bindings()),
        local_entry(r.locals(), PaneKind::Status) == Some(insert_all(Seq::empty(), default_status_bindings())),
        local_entry(r.locals(), PaneKind::RebaseTodo) == Some(insert_all(Seq::empty(), default_todo_bindings())),
        forall|k: PaneKind| k != PaneKind::Status && k != PaneKind::RebaseTodo ==> local_entry(r.locals(), k) is None,
{
    let global = keymap_of(global_list());
    let status = keymap_of(status_list());
    let todo = keymap_of(todo_list());
    let ghost status_view = status@;
    let ghost todo_view = todo@;
    let mut local: Vec<(PaneKind, Keymap)> = Vec::new();
    local.push((PaneKind::Status, status));
    local.push((PaneKind::RebaseTodo, todo));
    let r = Keymaps { global, local };
    proof {
        let ls = r.locals();
        assert(ls[0] == (PaneKind::Status, status_view));
        assert(ls.drop_first()[0] == (PaneKind::RebaseTodo, todo_view));
        assert(ls.drop_first().drop_first() =~= Seq::<(PaneKind, Seq<(Seq<KeyPress>, Command)>)>::empty());
        assert(local_entry(ls.drop_first(), PaneKind::RebaseTodo) == Some(todo_view));
        assert forall|k: PaneKind| k != PaneKind::Status && k != PaneKind::RebaseTodo implies local_entry(ls, k) is None by {
            assert(local_entry(ls, k) == local_entry(ls.drop_first(), k));
            assert(local_entry(ls.drop_first(), k) == local_entry(ls.drop_first().drop_first(), k));
        }
    }
    r
}

} // verus!
