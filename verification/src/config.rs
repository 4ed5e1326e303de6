//! User configuration (`$XDG_CONFIG_HOME/rugit/config.toml`): key bindings
//! merged over the defaults and color overrides. Finding and reading the
//! file is the application's job; this module applies what it holds.
//!
//! ```toml
//! scrolloff = 3
//!
//! [keys.global]
//! "g"   = "refresh"
//! "P p" = "push"      # space-separated key sequences are supported
//!
//! [keys.status]
//! "s" = "stage"
//!
//! [keys.rebase-todo]
//! "x" = "todo-drop"
//!
//! [colors]            # role names: see src/theme.rs
//! diff-add  = "green"
//! cursor-bg = "#3a3a3a"
//! key       = "42"    # 256-color index
//! ```

use vstd::prelude::*;

use crate::command::{by_name, by_name_spec, Command};
use crate::keymap::{
    insert_spec, local_entry, parse_keys, parse_keys_spec, KeyPress, Keymap, Keymaps, PaneKind,
};
use crate::text::{debug_quoted, push_str, str_debug};
use crate::theme::{
    color_of_display, invalid_color_message, parsed_color, role_index, role_keys, unknown_key_message, Theme,
};

verus! {

/// The settings of the config file, each table as its (key, value) entries.
#[derive(Debug, Default)]
pub struct Config {
    pub scrolloff: Option<usize>,
    pub keys: KeysConfig,
    pub colors: Vec<(String, String)>,
}

#[derive(Debug, Default)]
pub struct KeysConfig {
    pub global: Vec<(String, String)>,
    pub status: Vec<(String, String)>,
    pub rebase_todo: Vec<(String, String)>,
}

pub open spec fn entry_views(v: Seq<(String, String)>) -> Seq<(Seq<char>, Seq<char>)> {
    v.map_values(|e: (String, String)| (e.0@, e.1@))
}

/// The bindings after applying the entries in order, and the warnings they
/// raise: an unknown command name or a bad key spec is skipped with a
/// warning.
pub open spec fn apply_bindings(
    bs: Seq<(Seq<KeyPress>, Command)>,
    entries: Seq<(Seq<char>, Seq<char>)>,
) -> (Seq<(Seq<KeyPress>, Command)>, Seq<Seq<char>>)
    decreases entries.len(),
{
    if entries.len() == 0 {
        (bs, Seq::empty())
    } else {
        let (b, w) = apply_bindings(bs, entries.drop_last());
        let (spec, name) = entries.last();
        match by_name_spec(name) {
            None => (b, w.push("config: unknown command "@ + str_debug(name))),
            Some(cmd) => match parse_keys_spec(spec) {
                Ok(seq) => (insert_spec(b, seq, cmd), w),
                Err(e) => (b, w.push("config: "@ + e)),
            },
        }
    }
}

pub open spec fn string_views(v: Seq<String>) -> Seq<Seq<char>> {
    v.map_values(|s: String| s@)
}

fn apply_to(map: &mut Keymap, entries: &Vec<(String, String)>, warnings: &mut Vec<String>)
    ensures
        (final(map)@, string_views(final(warnings)@)) == ({
            let (b, w) = apply_bindings(old(map)@, entry_views(entries@));
            (b, string_views(old(warnings)@) + w)
        }),
{
    let ghost m0 = map@;
    let ghost w0 = string_views(warnings@);
    let ghost ev = entry_views(entries@);
    let mut i: usize = 0;
    assert(ev.take(0) =~= Seq::<(Seq<char>, Seq<char>)>::empty());
    assert(w0 + Seq::<Seq<char>>::empty() =~= w0);
    while i < entries.len()
        invariant
            i <= entries@.len(),
            ev == entry_views(entries@),
            (map@, string_views(warnings@)) == ({
                let (b, w) = apply_bindings(m0, ev.take(i as int));
                (b, w0 + w)
            }),
        decreases entries.len() - i,
    {
        let spec = entries[i].0.as_str();
        let name = entries[i].1.as_str();
        let ghost before = string_views(warnings@);
        proof {
            assert(ev.take(i + 1).drop_last() =~= ev.take(i as int));
            assert(ev.take(i + 1).last() == (spec@, name@));
        }
        match by_name(name) {
            None => {
                let mut msg = String::new();
                push_str(&mut msg, "config: unknown command ");
                let q = debug_quoted(name);
                push_str(&mut msg, q.as_str());
                assert(msg@ =~= "config: unknown command "@ + str_debug(name@));
                let ghost mv = msg@;
                warnings.push(msg);
                proof {
                    let (b, w) = apply_bindings(m0, ev.take(i as int));
                    assert(before == w0 + w);
                    assert(string_views(warnings@) =~= before.push(mv));
                    assert(string_views(warnings@) =~= w0 + w.push("config: unknown command "@ + str_debug(name@)));
                }
            },
            Some(cmd) => match parse_keys(spec) {
                Ok(seq) => {
                    map.insert(seq.as_slice(), cmd);
                    assert(string_views(warnings@) =~= before);
                },
                Err(e) => {
                    let mut msg = String::new();
                    push_str(&mut msg, "config: ");
                    push_str(&mut msg, e.as_str());
                    assert(msg@ =~= "config: "@ + e@);
                    let ghost mv = msg@;
                    warnings.push(msg);
                    proof {
                        let (b, w) = apply_bindings(m0, ev.take(i as int));
                        assert(before == w0 + w);
                        assert(string_views(warnings@) =~= before.push(mv));
                        assert(string_views(warnings@) =~= w0 + w.push("config: "@ + e@));
                    }
                },
            },
        }
        i += 1;
    }
    assert(ev.take(i as int) =~= ev);
}

/// Merge user bindings over the keymaps: `[keys.global]` into the global
/// map, `[keys.status]` and `[keys.rebase-todo]` into the local maps of
/// those buffers (created when missing). Unknown commands or bad key specs
/// become warnings.
pub fn apply_keys(cfg: &Config, keymaps: &mut Keymaps, warnings: &mut Vec<String>)
    ensures
        ({
            let (g, wg) = apply_bindings(old(keymaps).global@, entry_views(cfg.keys.global@));
            let st0 = match local_entry(old(keymaps).locals(), PaneKind::Status) {
                Some(m) => m,
                None => Seq::empty(),
            };
            let (s, ws) = apply_bindings(st0, entry_views(cfg.keys.status@));
            let td0 = match local_entry(old(keymaps).locals(), PaneKind::RebaseTodo) {
                Some(m) => m,
                None => Seq::empty(),
            };
            let (t, wt) = apply_bindings(td0, entry_views(cfg.keys.rebase_todo@));
            &&& final(keymaps).global@ == g
            &&& local_entry(final(keymaps).locals(), PaneKind::Status) == Some(s)
            &&& local_entry(final(keymaps).locals(), PaneKind::RebaseTodo) == Some(t)
            &&& forall|k: PaneKind|
                k != PaneKind::Status && k != PaneKind::RebaseTodo ==> local_entry(
                    final(keymaps).locals(),
                    k,
                ) == local_entry(old(keymaps).locals(), k)
            &&& string_views(final(warnings)@) == string_views(old(warnings)@) + wg + ws + wt
        }),
{
    let ghost w0 = string_views(warnings@);
    apply_to(&mut keymaps.global, &cfg.keys.global, warnings);
    let ghost w1 = string_views(warnings@);
    let mut status = keymaps.take_local(PaneKind::Status);
    apply_to(&mut status, &cfg.keys.status, warnings);
    keymaps.set_local(PaneKind::Status, status);
    let ghost w2 = string_views(warnings@);
    let mut todo = keymaps.take_local(PaneKind::RebaseTodo);
    apply_to(&mut todo, &cfg.keys.rebase_todo, warnings);
    keymaps.set_local(PaneKind::RebaseTodo, todo);
    proof {
        let (g, wg) = apply_bindings(old(keymaps).global@, entry_views(cfg.keys.global@));
        assert(w1 == w0 + wg);
        assert(string_views(warnings@) =~= w0 + wg + (w2.subrange(w1.len() as int, w2.len() as int)) + (
        string_views(warnings@).subrange(w2.len() as int, string_views(warnings@).len() as int)));
    }
}

/// The theme after applying `[colors]` entries in order, and the warnings
/// they raise.
pub open spec fn apply_colors_spec(theme: Seq<crate::theme::Color>, entries: Seq<(Seq<char>, Seq<char>)>) -> (
    Seq<crate::theme::Color>,
    Seq<Seq<char>>,
)
    decreases entries.len(),
{
    if entries.len() == 0 {
        (theme, Seq::empty())
    } else {
        let (t, w) = apply_colors_spec(theme, entries.drop_last());
        let (key, value) = entries.last();
        match parsed_color(value) {
            None => (t, w.push(invalid_color_message(key, value))),
            Some(text) => match role_index(key) {
                None => (t, w.push(unknown_key_message(key))),
                Some(i) => (t.update(i, color_of_display(text)), w),
            },
        }
    }
}

/// The warning a `[colors]` entry raises, if any: an unparsable colour, or
/// a parsable one for a key that names no role.
pub open spec fn color_warning(e: (Seq<char>, Seq<char>)) -> Option<Seq<char>> {
    match parsed_color(e.1) {
        None => Some(invalid_color_message(e.0, e.1)),
        Some(_) => match role_index(e.0) {
            None => Some(unknown_key_message(e.0)),
            Some(_) => None,
        },
    }
}

/// The warnings of the entries that raise one, in order.
pub open spec fn color_warnings(entries: Seq<(Seq<char>, Seq<char>)>) -> Seq<Seq<char>> {
    entries.filter_map(|e: (Seq<char>, Seq<char>)| color_warning(e))
}

/// The colour the last valid entry for role `i` gives it, if any.
pub open spec fn last_color_for(entries: Seq<(Seq<char>, Seq<char>)>, i: int) -> Option<crate::theme::Color>
    decreases entries.len(),
{
    if entries.len() == 0 {
        None
    } else {
        let (key, value) = entries.last();
        if parsed_color(value) is Some && role_index(key) == Some(i) {
            Some(color_of_display(parsed_color(value)->0))
        } else {
            last_color_for(entries.drop_last(), i)
        }
    }
}

/// Applying `[colors]`: exactly one warning per bad entry, in order, and a
/// bad entry never stops the others; each role ends with the colour of the
/// last valid entry naming it, and every other role keeps its colour.
pub proof fn law_apply_colors(theme: Seq<crate::theme::Color>, entries: Seq<(Seq<char>, Seq<char>)>)
    requires
        theme.len() == role_keys().len(),
    ensures
        apply_colors_spec(theme, entries).1 == color_warnings(entries),
        apply_colors_spec(theme, entries).0.len() == theme.len(),
        forall|i: int|
            0 <= i < theme.len() ==> #[trigger] apply_colors_spec(theme, entries).0[i] == match last_color_for(
                entries,
                i,
            ) {
                Some(c) => c,
                None => theme[i],
            },
    decreases entries.len(),
{
    if entries.len() > 0 {
        let front = entries.drop_last();
        law_apply_colors(theme, front);
        let (key, value) = entries.last();
        let f = |e: (Seq<char>, Seq<char>)| color_warning(e);
        assert(color_warnings(entries) == (match f(entries.last()) {
            Some(s) => front.filter_map(f) + seq![s],
            None => front.filter_map(f),
        }));
        let (t, w) = apply_colors_spec(theme, front);
        match parsed_color(value) {
            None => {
                assert(w.push(invalid_color_message(key, value)) =~= w + seq![invalid_color_message(key, value)]);
                assert forall|i: int| 0 <= i < theme.len() implies #[trigger] t[i] == match last_color_for(
                    entries,
                    i,
                ) {
                    Some(c) => c,
                    None => theme[i],
                } by {
                    assert(t[i] == match last_color_for(front, i) {
                        Some(c) => c,
                        None => theme[i],
                    });
                }
            },
            Some(text) => match role_index(key) {
                None => {
                    assert(w.push(unknown_key_message(key)) =~= w + seq![unknown_key_message(key)]);
                    assert forall|i: int| 0 <= i < theme.len() implies #[trigger] t[i] == match last_color_for(
                        entries,
                        i,
                    ) {
                        Some(c) => c,
                        None => theme[i],
                    } by {
                        assert(t[i] == match last_color_for(front, i) {
                            Some(c) => c,
                            None => theme[i],
                        });
                    }
                },
                Some(j) => {
                    assert(crate::theme::is_role_at(key, j));
                    let t2 = t.update(j, color_of_display(text));
                    assert forall|i: int| 0 <= i < theme.len() implies #[trigger] t2[i] == match last_color_for(
                        entries,
                        i,
                    ) {
                        Some(c) => c,
                        None => theme[i],
                    } by {
                        assert(t[i] == match last_color_for(front, i) {
                            Some(c) => c,
                            None => theme[i],
                        });
                    }
                },
            },
        }
    } else {
        assert(color_warnings(entries) =~= Seq::<Seq<char>>::empty());
    }
}

/// Override theme roles from `[colors]`. Bad keys/values become warnings.
pub fn apply_colors(cfg: &Config, theme: &mut Theme, warnings: &mut Vec<String>)
    ensures
        ({
            let (t, w) = apply_colors_spec(old(theme)@, entry_views(cfg.colors@));
            final(theme)@ == t && string_views(final(warnings)@) == string_views(old(warnings)@) + w
        }),
{
    let ghost t0 = theme@;
    let ghost w0 = string_views(warnings@);
    let ghost ev = entry_views(cfg.colors@);
    let mut i: usize = 0;
    assert(ev.take(0) =~= Seq::<(Seq<char>, Seq<char>)>::empty());
    assert(w0 + Seq::<Seq<char>>::empty() =~= w0);
    while i < cfg.colors.len()
        invariant
            i <= cfg.colors@.len(),
            ev == entry_views(cfg.colors@),
            ({
                let (t, w) = apply_colors_spec(t0, ev.take(i as int));
                theme@ == t && string_views(warnings@) == w0 + w
            }),
        decreases cfg.colors.len() - i,
    {
        let key = cfg.colors[i].0.as_str();
        let value = cfg.colors[i].1.as_str();
        proof {
            assert(ev.take(i + 1).drop_last() =~= ev.take(i as int));
            assert(ev.take(i + 1).last() == (key@, value@));
        }
        let ghost before = string_views(warnings@);
        match theme.set(key, value) {
            Ok(()) => {},
            Err(e) => {
                warnings.push(e);
                assert(string_views(warnings@) =~= before.push(e@));
            },
        }
        i += 1;
    }
    assert(ev.take(i as int) =~= ev);
}

} // verus!
