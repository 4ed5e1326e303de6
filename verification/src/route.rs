//! Key routing: a pending confirmation takes the key first, then an open
//! minibuffer, then the help overlay, then an open transient; only then do
//! the keymaps see it, one key of a multi-key sequence at a time.

use vstd::prelude::*;

use crate::command::{Command, NavCmd};
use crate::keymap::{
    format_keys, format_keys_spec, layered, local_entry, lookup_spec, KeyCode, KeyPress, Keymaps, Lookup, PaneKind,
};
use crate::ops::cat;

verus! {

/// Who handles a key.
#[derive(Debug, Clone, Copy, PartialEq, Eq, Structural)]
pub enum KeyTarget {
    Confirm,
    Input,
    Help,
    Transient,
    Keymap,
}

pub open spec fn key_target_spec(confirm: bool, input: bool, help: bool, transient: bool) -> KeyTarget {
    if confirm {
        KeyTarget::Confirm
    } else if input {
        KeyTarget::Input
    } else if help {
        KeyTarget::Help
    } else if transient {
        KeyTarget::Transient
    } else {
        KeyTarget::Keymap
    }
}

/// The overlay that gets a key, given which are open.
pub fn key_target(confirm: bool, input: bool, help: bool, transient: bool) -> (r: KeyTarget)
    ensures
        r == key_target_spec(confirm, input, help, transient),
{
    if confirm {
        KeyTarget::Confirm
    } else if input {
        KeyTarget::Input
    } else if help {
        KeyTarget::Help
    } else if transient {
        KeyTarget::Transient
    } else {
        KeyTarget::Keymap
    }
}

/// `y`, `Y` or RET answer a confirmation with yes; any other key aborts.
pub open spec fn confirms_spec(kp: KeyPress) -> bool {
    kp.code == KeyCode::Char('y') || kp.code == KeyCode::Char('Y') || kp.code == KeyCode::Enter
}

pub fn confirms(kp: &KeyPress) -> (r: bool)
    ensures
        r == confirms_spec(*kp),
{
    match kp.code {
        KeyCode::Char('y') | KeyCode::Char('Y') | KeyCode::Enter => true,
        _ => false,
    }
}

/// A key in the help overlay: `None` closes it, else the new scroll offset
/// (the renderer clamps it to the content, which `End` relies on).
pub open spec fn help_key_spec(kp: KeyPress, scroll: usize) -> Option<usize> {
    let ctrl = kp.mods.ctrl;
    match kp.code {
        KeyCode::Char('q') | KeyCode::Esc | KeyCode::Char('?') => None,
        KeyCode::Char('j') | KeyCode::Down => Some((scroll + 1) as usize),
        KeyCode::Char('k') | KeyCode::Up => Some(if scroll >= 1 { (scroll - 1) as usize } else { 0 }),
        KeyCode::Char('d') if ctrl => Some((scroll + 10) as usize),
        KeyCode::Char('u') if ctrl => Some(if scroll >= 10 { (scroll - 10) as usize } else { 0 }),
        KeyCode::PageDown => Some((scroll + 10) as usize),
        KeyCode::PageUp => Some(if scroll >= 10 { (scroll - 10) as usize } else { 0 }),
        KeyCode::Home | KeyCode::Char('g') => Some(0),
        KeyCode::End | KeyCode::Char('G') => Some(usize::MAX),
        _ => Some(scroll),
    }
}

/// The scroll keys that add to the offset need it to stay in range.
pub open spec fn help_key_fits(kp: KeyPress, scroll: usize) -> bool {
    match kp.code {
        KeyCode::Char('j') | KeyCode::Down => scroll < usize::MAX,
        KeyCode::Char('d') => !kp.mods.ctrl || scroll <= usize::MAX - 10,
        KeyCode::PageDown => scroll <= usize::MAX - 10,
        _ => true,
    }
}

pub fn help_key(kp: &KeyPress, scroll: usize) -> (r: Option<usize>)
    requires
        help_key_fits(*kp, scroll),
    ensures
        r == help_key_spec(*kp, scroll),
{
    let ctrl = kp.mods.ctrl;
    match kp.code {
        KeyCode::Char('q') | KeyCode::Esc | KeyCode::Char('?') => None,
        KeyCode::Char('j') | KeyCode::Down => Some(scroll + 1),
        KeyCode::Char('k') | KeyCode::Up => Some(scroll.saturating_sub(1)),
        KeyCode::Char('d') if ctrl => Some(scroll + 10),
        KeyCode::Char('u') if ctrl => Some(scroll.saturating_sub(10)),
        KeyCode::PageDown => Some(scroll + 10),
        KeyCode::PageUp => Some(scroll.saturating_sub(10)),
        KeyCode::Home | KeyCode::Char('g') => Some(0),
        KeyCode::End | KeyCode::Char('G') => Some(usize::MAX),
        _ => Some(scroll),
    }
}

/// What a key sequence resolves to in a buffer of `kind`: the buffer's own
/// bindings first, then the global ones.
pub open spec fn resolve(k: &Keymaps, kind: PaneKind, seq: Seq<KeyPress>) -> Lookup {
    layered(
        match local_entry(k.locals(), kind) {
            Some(m) => lookup_spec(m, seq),
            None => Lookup::Unbound,
        },
        lookup_spec(k.global@, seq),
    )
}

/// What a key does at the keymap level.
#[derive(Debug)]
pub enum KeymapOutcome {
    /// The sequence is complete: run the command.
    Dispatch(Command),
    /// The sequence is a prefix of a binding: wait for more keys.
    Wait,
    /// The sequence is bound to nothing; a multi-key one says so.
    Undefined(Option<String>),
    /// ESC dropped the keys typed so far.
    ClearedPending,
    /// ESC cleared the active search.
    ClearedSearch,
    /// ESC with nothing to clear.
    Nothing,
}

/// Feeds one key to the keymaps. ESC cancels a pending sequence, else an
/// active search; any other key extends the pending sequence, which is
/// dropped once it resolves.
pub fn keymap_key(
    keymaps: &Keymaps,
    kind: PaneKind,
    pending: &mut Vec<KeyPress>,
    search_active: bool,
    kp: KeyPress,
) -> (r: KeymapOutcome)
    ensures
        kp.code == KeyCode::Esc ==> final(pending)@.len() == 0 && (if old(pending)@.len() > 0 {
            r is ClearedPending
        } else if search_active {
            r is ClearedSearch
        } else {
            r is Nothing
        }),
        kp.code != KeyCode::Esc ==> ({
            let seq = old(pending)@.push(kp);
            match resolve(keymaps, kind, seq) {
                Lookup::Command(c) => r == KeymapOutcome::Dispatch(c) && final(pending)@.len() == 0,
                Lookup::Pending => r is Wait && final(pending)@ == seq,
                Lookup::Unbound => final(pending)@.len() == 0 && (r matches KeymapOutcome::Undefined(m) && (
                if seq.len() > 1 {
                    m matches Some(t) && t@ == format_keys_spec(seq) + " is undefined"@
                } else {
                    m is None
                })),
            }
        }),
{
    if kp.is_esc() {
        if pending.len() > 0 {
            pending.clear();
            return KeymapOutcome::ClearedPending;
        }
        if search_active {
            return KeymapOutcome::ClearedSearch;
        }
        return KeymapOutcome::Nothing;
    }
    pending.push(kp);
    match keymaps.lookup(kind, pending.as_slice()) {
        Lookup::Command(c) => {
            pending.clear();
            KeymapOutcome::Dispatch(c)
        },
        Lookup::Pending => KeymapOutcome::Wait,
        Lookup::Unbound => {
            let msg = if pending.len() > 1 {
                let keys = format_keys(pending.as_slice());
                Some(cat(keys.as_str(), " is undefined"))
            } else {
                None
            };
            pending.clear();
            KeymapOutcome::Undefined(msg)
        },
    }
}

/// While a search is active, the section motions and n/N walk its matches
/// instead: `Some(forward)` for a command that does.
pub open spec fn search_motion_spec(cmd: Command, search_active: bool) -> Option<bool> {
    if !search_active {
        None
    } else {
        match cmd {
            Command::Nav(NavCmd::NextSection) | Command::SearchNext => Some(true),
            Command::Nav(NavCmd::PrevSection) | Command::SearchPrev => Some(false),
            _ => None,
        }
    }
}

pub fn search_motion(cmd: Command, search_active: bool) -> (r: Option<bool>)
    ensures
        r == search_motion_spec(cmd, search_active),
{
    if !search_active {
        return None;
    }
    match cmd {
        Command::Nav(NavCmd::NextSection) | Command::SearchNext => Some(true),
        Command::Nav(NavCmd::PrevSection) | Command::SearchPrev => Some(false),
        _ => None,
    }
}

} // verus!
