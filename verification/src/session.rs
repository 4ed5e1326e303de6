//! The application's pending interactions: a destructive action awaiting
//! confirmation, a git run that needs the terminal for $EDITOR, and the
//! buffer search with its n/N navigation.

use vstd::prelude::*;

use crate::text::{chars_of, push_char, push_str};

verus! {

/// A destructive action awaiting y/n confirmation.
#[derive(Debug)]
pub struct Confirm {
    pub prompt: String,
    pub action: PendingAction,
}

#[derive(Debug)]
pub enum PendingAction {
    Git { desc: String, args: Vec<String>, stdin: Option<String> },
    /// Several git commands run in order, stopping at the first failure.
    GitSeq { desc: String, cmds: Vec<Vec<String>> },
    DeletePaths(Vec<String>),
}

/// `git commit` must run with the terminal handed over to $EDITOR; the main
/// loop performs this outside of raw mode.
#[derive(Debug)]
pub struct EditorRequest {
    pub desc: String,
    pub args: Vec<String>,
    /// Extra environment for the git process (e.g. `GIT_SEQUENCE_EDITOR`
    /// when launching a rebase whose todo the app already wrote).
    pub envs: Vec<(String, String)>,
}

impl EditorRequest {
    pub fn new(desc: String, args: Vec<String>) -> (r: EditorRequest)
        ensures
            r.desc == desc,
            r.args == args,
            r.envs@.len() == 0,
    {
        EditorRequest { desc, args, envs: Vec::new() }
    }
}

pub open spec fn string_views(v: Seq<String>) -> Seq<Seq<char>> {
    v.map_values(|s: String| s@)
}

pub open spec fn str_views(v: Seq<&str>) -> Seq<Seq<char>> {
    v.map_values(|s: &str| s@)
}

/// Owned copies of the arguments.
pub fn svec(args: &[&str]) -> (r: Vec<String>)
    ensures
        string_views(r@) == str_views(args@),
{
    let mut out: Vec<String> = Vec::new();
    let mut i: usize = 0;
    while i < args.len()
        invariant
            i <= args@.len(),
            string_views(out@) == str_views(args@).take(i as int),
        decreases args.len() - i,
    {
        let ghost before = string_views(out@);
        let mut s = String::new();
        push_str(&mut s, args[i]);
        assert(s@ =~= args@[i as int]@);
        out.push(s);
        assert(string_views(out@) =~= before.push(args@[i as int]@));
        assert(str_views(args@).take(i + 1) =~= str_views(args@).take(i as int).push(args@[i as int]@));
        i += 1;
    }
    assert(str_views(args@).take(i as int) =~= str_views(args@));
    out
}

/// `s` with every `'` written as `'\''`.
pub open spec fn escape_quotes(s: Seq<char>) -> Seq<char>
    decreases s.len(),
{
    if s.len() == 0 {
        s
    } else {
        escape_quotes(s.drop_last()) + if s.last() == '\'' {
            "'\\''"@
        } else {
            seq![s.last()]
        }
    }
}

/// Quote for the POSIX shell git runs `GIT_SEQUENCE_EDITOR` with.
pub fn shell_quote(s: &str) -> (r: String)
    ensures
        r@ == seq!['\''] + escape_quotes(s@) + seq!['\''],
{
    let v = chars_of(s);
    let mut out = String::new();
    push_char(&mut out, '\'');
    let mut i: usize = 0;
    assert(v@.take(0) =~= Seq::<char>::empty());
    while i < v.len()
        invariant
            v@ == s@,
            i <= v@.len(),
            out@ == seq!['\''] + escape_quotes(v@.take(i as int)),
        decreases v.len() - i,
    {
        assert(v@.take(i + 1).drop_last() =~= v@.take(i as int));
        assert(v@.take(i + 1).last() == v@[i as int]);
        let ghost before = out@;
        if v[i] == '\'' {
            push_str(&mut out, "'\\''");
        } else {
            push_char(&mut out, v[i]);
            assert(out@ =~= before + seq![v@[i as int]]);
        }
        assert(out@ =~= seq!['\''] + escape_quotes(v@.take(i + 1)));
        i += 1;
    }
    assert(v@.take(i as int) =~= v@);
    push_char(&mut out, '\'');
    out
}

/// Active buffer-search state. While `query` is set, matches are highlighted
/// and n/N navigate them; ESC clears it.
#[derive(Debug, Default)]
pub struct SearchState {
    pub query: Option<String>,
    /// Cursor position when `/` was pressed, for restoring on cancel.
    pub origin: usize,
}

/// Ascending line indices.
pub open spec fn ascending(m: Seq<usize>) -> bool {
    forall|i: int, j: int| 0 <= i < j < m.len() ==> m[i] < m[j]
}

/// Where the live preview puts the cursor: the first match at or after the
/// search origin, else the first match, else the origin.
pub open spec fn preview_target_spec(matches: Seq<usize>, origin: usize) -> usize {
    if exists|i: int| 0 <= i < matches.len() && matches[i] >= origin {
        matches[choose|i: int| 0 <= i < matches.len() && matches[i] >= origin && forall|j: int|
            0 <= j < i ==> matches[j] < origin]
    } else if matches.len() > 0 {
        matches[0]
    } else {
        origin
    }
}

/// `matches[i]` is the first match after `cur`.
pub open spec fn first_after(matches: Seq<usize>, cur: usize, i: int) -> bool {
    0 <= i < matches.len() && matches[i] > cur && forall|j: int| 0 <= j < i ==> matches[j] <= cur
}

/// `matches[i]` is the last match before `cur`.
pub open spec fn last_before(matches: Seq<usize>, cur: usize, i: int) -> bool {
    0 <= i < matches.len() && matches[i] < cur && forall|j: int| i < j < matches.len() ==> matches[j] >= cur
}

/// Where n (forward) or N jumps from `cur`, and whether it wrapped around
/// the buffer; `None` without matches.
pub open spec fn search_step_spec(matches: Seq<usize>, cur: usize, forward: bool) -> Option<(usize, bool)> {
    if matches.len() == 0 {
        None
    } else if forward {
        if exists|i: int| first_after(matches, cur, i) {
            Some((matches[choose|i: int| first_after(matches, cur, i)], false))
        } else {
            Some((matches[0], true))
        }
    } else {
        if exists|i: int| last_before(matches, cur, i) {
            Some((matches[choose|i: int| last_before(matches, cur, i)], false))
        } else {
            Some((matches[matches.len() - 1], true))
        }
    }
}

impl SearchState {
    /// The cursor for the live preview over `matches` (ascending).
    pub fn preview_target(&self, matches: &[usize]) -> (r: usize)
        ensures
            r == preview_target_spec(matches@, self.origin),
    {
        let mut i: usize = 0;
        while i < matches.len()
            invariant
                i <= matches@.len(),
                forall|j: int| 0 <= j < i ==> matches@[j] < self.origin,
            decreases matches.len() - i,
        {
            if matches[i] >= self.origin {
                proof {
                    let k = choose|k: int|
                        0 <= k < matches@.len() && matches@[k] >= self.origin && forall|j: int|
                            0 <= j < k ==> matches@[j] < self.origin;
                    assert(k == i) by {
                        if k < i {
                        }
                        if k > i {
                            assert(matches@[i as int] < self.origin);
                        }
                    }
                }
                return matches[i];
            }
            i += 1;
        }
        if matches.len() > 0 {
            matches[0]
        } else {
            self.origin
        }
    }

    /// The jump for n (`forward`) or N from `cur` among `matches`.
    pub fn step(matches: &[usize], cur: usize, forward: bool) -> (r: Option<(usize, bool)>)
        ensures
            r == search_step_spec(matches@, cur, forward),
    {
        let n = matches.len();
        if n == 0 {
            return None;
        }
        if forward {
            let mut i: usize = 0;
            while i < n
                invariant
                    n == matches@.len(),
                    n > 0,
                    forward,
                    i <= n,
                    forall|j: int| 0 <= j < i ==> matches@[j] <= cur,
                decreases n - i,
            {
                if matches[i] > cur {
                    proof {
                        assert(first_after(matches@, cur, i as int));
                        let k = choose|k: int| first_after(matches@, cur, k);
                        assert(k == i) by {
                            if k > i {
                                assert(matches@[i as int] <= cur);
                            }
                            if k < i {
                                assert(matches@[k] <= cur);
                            }
                        }
                    }
                    return Some((matches[i], false));
                }
                i += 1;
            }
            assert(!exists|k: int| first_after(matches@, cur, k));
            Some((matches[0], true))
        } else {
            let mut i: usize = n;
            while i > 0
                invariant
                    n == matches@.len(),
                    n > 0,
                    !forward,
                    i <= n,
                    forall|j: int| i <= j < n ==> matches@[j] >= cur,
                decreases i,
            {
                if matches[i - 1] < cur {
                    proof {
                        assert(last_before(matches@, cur, i - 1));
                        let k = choose|k: int| last_before(matches@, cur, k);
                        assert(k == i - 1) by {
                            if k < i - 1 {
                                assert(matches@[i - 1] >= cur);
                            }
                            if k > i - 1 {
                                assert(matches@[k] >= cur);
                            }
                        }
                    }
                    return Some((matches[i - 1], false));
                }
                i -= 1;
            }
            assert(!exists|k: int| last_before(matches@, cur, k));
            Some((matches[n - 1], true))
        }
    }

    /// Where clearing the search puts the cursor back: the origin, within
    /// the buffer's `line_count` lines.
    pub fn restored_cursor(&self, line_count: usize) -> (r: usize)
        ensures
            r == (if line_count == 0 {
                0
            } else if self.origin < line_count {
                self.origin as int
            } else {
                line_count - 1
            }),
    {
        if line_count == 0 {
            0
        } else if self.origin < line_count {
            self.origin
        } else {
            line_count - 1
        }
    }
}

} // verus!
