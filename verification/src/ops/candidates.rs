//! What the pickers offer, read from git's output: branches (deduplicated,
//! without symbolic HEADs), tags, remotes, submodule paths and linked
//! worktrees; the commit or stash at point comes first, like Magit's
//! at-point defaults.

use vstd::prelude::*;

use crate::git::types::StashInfo;
use crate::ops::menus::stash_ref;
use crate::ops::{cat, has_flag, owned, push_arg, without};
use crate::session::string_views;
use crate::text::{
    chars_of, contains, decimal, digit_char, find, lemma_find_at, ends_with, find_exec, has_suffix, lines, lines_exec, push_decimal, push_str, seqs,
    split_once, split_once_str, starts_with, starts_with_str, string_of, strip_prefix, strip_prefix_str, trim,
    trim_exec,
};

verus! {

/// A listed branch: not blank, not a symbolic `.../HEAD`, not the
/// "(HEAD detached at ...)" pseudo-entry.
pub open spec fn is_branch_line(t: Seq<char>) -> bool {
    t.len() > 0 && !ends_with(t, "HEAD"@) && !contains(t, "HEAD detached"@)
}

/// The trimmed branch lines, each once, in order of first appearance.
pub open spec fn branch_list_spec(ls: Seq<Seq<char>>) -> Seq<Seq<char>>
    decreases ls.len(),
{
    if ls.len() == 0 {
        Seq::empty()
    } else {
        let r = branch_list_spec(ls.drop_last());
        let t = trim(ls.last());
        if is_branch_line(t) && !r.contains(t) {
            r.push(t)
        } else {
            r
        }
    }
}

/// The branches in `git branch --all --format=%(refname:short)` output.
pub fn list_branches(out: &str) -> (r: Vec<String>)
    ensures
        string_views(r@) == branch_list_spec(lines(out@)),
{
    let cs = chars_of(out);
    let ls = lines_exec(&cs);
    let head = chars_of("HEAD");
    let detached = chars_of("HEAD detached");
    let mut r: Vec<String> = Vec::new();
    let mut i: usize = 0;
    assert(seqs(ls@).take(0) =~= Seq::<Seq<char>>::empty());
    while i < ls.len()
        invariant
            i <= ls@.len(),
            head@ == "HEAD"@,
            detached@ == "HEAD detached"@,
            string_views(r@) == branch_list_spec(seqs(ls@).take(i as int)),
        decreases ls.len() - i,
    {
        let ghost t = seqs(ls@).take(i + 1);
        assert(t.drop_last() =~= seqs(ls@).take(i as int));
        assert(t.last() == ls@[i as int]@);
        let l = trim_exec(&ls[i]);
        if l.len() > 0 && !has_suffix(&l, &head) && find_exec(&l, &detached).is_none() {
            let s = string_of(&l);
            if !has_flag(&r, s.as_str()) {
                let ghost before = string_views(r@);
                r.push(s);
                assert(string_views(r@) =~= before.push(l@));
            }
        }
        i += 1;
    }
    assert(seqs(ls@).take(i as int) =~= seqs(ls@));
    r
}

/// The trimmed non-blank lines.
pub open spec fn nonblank_lines(ls: Seq<Seq<char>>) -> Seq<Seq<char>>
    decreases ls.len(),
{
    if ls.len() == 0 {
        Seq::empty()
    } else {
        let r = nonblank_lines(ls.drop_last());
        let t = trim(ls.last());
        if t.len() > 0 {
            r.push(t)
        } else {
            r
        }
    }
}

/// One name per non-blank line (`git tag --list`, `git remote`).
pub fn list_names(out: &str) -> (r: Vec<String>)
    ensures
        string_views(r@) == nonblank_lines(lines(out@)),
{
    let cs = chars_of(out);
    let ls = lines_exec(&cs);
    let mut r: Vec<String> = Vec::new();
    let mut i: usize = 0;
    assert(seqs(ls@).take(0) =~= Seq::<Seq<char>>::empty());
    while i < ls.len()
        invariant
            i <= ls@.len(),
            string_views(r@) == nonblank_lines(seqs(ls@).take(i as int)),
        decreases ls.len() - i,
    {
        let ghost t = seqs(ls@).take(i + 1);
        assert(t.drop_last() =~= seqs(ls@).take(i as int));
        assert(t.last() == ls@[i as int]@);
        let l = trim_exec(&ls[i]);
        if l.len() > 0 {
            let ghost before = string_views(r@);
            r.push(string_of(&l));
            assert(string_views(r@) =~= before.push(l@));
        }
        i += 1;
    }
    assert(seqs(ls@).take(i as int) =~= seqs(ls@));
    r
}

/// Submodule paths from `git config --file .gitmodules --get-regexp
/// '^submodule\..*\.path$'`: the trimmed value after the key.
pub open spec fn submodule_paths(ls: Seq<Seq<char>>) -> Seq<Seq<char>>
    decreases ls.len(),
{
    if ls.len() == 0 {
        Seq::empty()
    } else {
        let r = submodule_paths(ls.drop_last());
        match split_once(ls.last(), " "@) {
            Some((_, p)) => if trim(p).len() > 0 {
                r.push(trim(p))
            } else {
                r
            },
            None => r,
        }
    }
}

pub fn list_submodules(out: &str) -> (r: Vec<String>)
    ensures
        string_views(r@) == submodule_paths(lines(out@)),
{
    let cs = chars_of(out);
    let ls = lines_exec(&cs);
    let mut r: Vec<String> = Vec::new();
    let mut i: usize = 0;
    assert(seqs(ls@).take(0) =~= Seq::<Seq<char>>::empty());
    while i < ls.len()
        invariant
            i <= ls@.len(),
            string_views(r@) == submodule_paths(seqs(ls@).take(i as int)),
        decreases ls.len() - i,
    {
        let ghost t = seqs(ls@).take(i + 1);
        assert(t.drop_last() =~= seqs(ls@).take(i as int));
        assert(t.last() == ls@[i as int]@);
        match split_once_str(&ls[i], " ") {
            Some((_, p)) => {
                let path = trim_exec(&p);
                if path.len() > 0 {
                    let ghost before = string_views(r@);
                    r.push(string_of(&path));
                    assert(string_views(r@) =~= before.push(path@));
                }
            },
            None => {},
        }
        i += 1;
    }
    assert(seqs(ls@).take(i as int) =~= seqs(ls@));
    r
}

/// The `worktree <path>` lines of `git worktree list --porcelain`.
pub open spec fn worktree_paths(ls: Seq<Seq<char>>) -> Seq<Seq<char>>
    decreases ls.len(),
{
    if ls.len() == 0 {
        Seq::empty()
    } else {
        let r = worktree_paths(ls.drop_last());
        match strip_prefix(ls.last(), "worktree "@) {
            Some(p) => r.push(p),
            None => r,
        }
    }
}

/// The linked worktrees: every listed one but the first, which is the
/// main worktree.
pub open spec fn linked_worktrees_spec(out: Seq<char>) -> Seq<Seq<char>> {
    let all = worktree_paths(lines(out));
    if all.len() > 0 {
        all.drop_first()
    } else {
        all
    }
}

pub fn list_linked_worktrees(out: &str) -> (r: Vec<String>)
    ensures
        string_views(r@) == linked_worktrees_spec(out@),
{
    let cs = chars_of(out);
    let ls = lines_exec(&cs);
    let mut r: Vec<String> = Vec::new();
    let mut i: usize = 0;
    assert(seqs(ls@).take(0) =~= Seq::<Seq<char>>::empty());
    while i < ls.len()
        invariant
            i <= ls@.len(),
            string_views(r@) == worktree_paths(seqs(ls@).take(i as int)),
        decreases ls.len() - i,
    {
        let ghost t = seqs(ls@).take(i + 1);
        assert(t.drop_last() =~= seqs(ls@).take(i as int));
        assert(t.last() == ls@[i as int]@);
        match strip_prefix_str(&ls[i], "worktree ") {
            Some(p) => {
                let ghost before = string_views(r@);
                r.push(string_of(&p));
                assert(string_views(r@) =~= before.push(p@));
            },
            None => {},
        }
        i += 1;
    }
    assert(seqs(ls@).take(i as int) =~= seqs(ls@));
    if r.len() > 0 {
        let ghost before = string_views(r@);
        r.remove(0);
        assert(string_views(r@) =~= before.drop_first());
    }
    r
}

/// The picker's revisions: the commit at point (if any) first, then the
/// branches other than it.
pub open spec fn revs_at_point_spec(branches: Seq<Seq<char>>, at_point: Option<Seq<char>>) -> Seq<Seq<char>> {
    match at_point {
        Some(h) => seq![h] + without(branches, h, h),
        None => branches,
    }
}

pub fn revs_at_point(branches: &Vec<String>, at_point: Option<&String>) -> (r: Vec<String>)
    ensures
        string_views(r@) == revs_at_point_spec(
            string_views(branches@),
            match at_point {
                Some(h) => Some(h@),
                None => None,
            },
        ),
{
    let mut r: Vec<String> = Vec::new();
    match at_point {
        Some(h) => {
            r.push(h.clone());
            assert(string_views(r@) =~= seq![h@]);
            crate::ops::push_without(&mut r, branches, h.as_str(), h.as_str());
        },
        None => {
            crate::ops::push_all(&mut r, branches);
            assert(string_views(r@) =~= string_views(branches@));
        },
    }
    r
}

/// A stash as a picker candidate: `stash@{N}: message`.
pub open spec fn stash_candidate(s: StashInfo) -> Seq<char> {
    "stash@{"@ + decimal(s.index as nat) + "}: "@ + s.message@
}

/// The position of the first item starting with `p`, or -1.
pub open spec fn first_prefixed(s: Seq<Seq<char>>, p: Seq<char>) -> int
    decreases s.len(),
{
    if s.len() == 0 {
        -1
    } else if starts_with(s[0], p) {
        0
    } else {
        let r = first_prefixed(s.drop_first(), p);
        if r < 0 {
            -1
        } else {
            r + 1
        }
    }
}

/// The stash list as candidates, with the stash at point (if listed) first.
pub open spec fn stash_candidates_spec(stashes: Seq<StashInfo>, at_point: Option<usize>) -> Seq<Seq<char>> {
    let c = stashes.map_values(|s: StashInfo| stash_candidate(s));
    match at_point {
        Some(i) => {
            let k = first_prefixed(c, "stash@{"@ + decimal(i as nat) + "}:"@);
            if k >= 0 {
                seq![c[k]] + c.remove(k)
            } else {
                c
            }
        },
        None => c,
    }
}

proof fn lemma_first_prefixed(s: Seq<Seq<char>>, p: Seq<char>, i: int)
    requires
        0 <= i < s.len(),
        starts_with(s[i], p),
        forall|j: int| 0 <= j < i ==> !starts_with(#[trigger] s[j], p),
    ensures
        first_prefixed(s, p) == i,
    decreases s.len(),
{
    if i > 0 {
        assert forall|j: int| 0 <= j < i - 1 implies !starts_with(#[trigger] s.drop_first()[j], p) by {
            assert(s.drop_first()[j] == s[j + 1]);
        }
        lemma_first_prefixed(s.drop_first(), p, i - 1);
    }
}

proof fn lemma_none_prefixed(s: Seq<Seq<char>>, p: Seq<char>)
    requires
        forall|j: int| 0 <= j < s.len() ==> !starts_with(#[trigger] s[j], p),
    ensures
        first_prefixed(s, p) == -1,
    decreases s.len(),
{
    if s.len() > 0 {
        assert forall|j: int| 0 <= j < s.len() - 1 implies !starts_with(#[trigger] s.drop_first()[j], p) by {
            assert(s.drop_first()[j] == s[j + 1]);
        }
        lemma_none_prefixed(s.drop_first(), p);
    }
}

pub fn stash_candidates(stashes: &Vec<StashInfo>, at_point: Option<usize>) -> (r: Vec<String>)
    ensures
        string_views(r@) == stash_candidates_spec(stashes@, at_point),
{
    let ghost c = stashes@.map_values(|s: StashInfo| stash_candidate(s));
    let mut out: Vec<String> = Vec::new();
    let mut i: usize = 0;
    while i < stashes.len()
        invariant
            i <= stashes@.len(),
            c == stashes@.map_values(|s: StashInfo| stash_candidate(s)),
            string_views(out@) == c.take(i as int),
        decreases stashes.len() - i,
    {
        let st = &stashes[i];
        let mut s = owned("stash@{");
        push_decimal(&mut s, st.index as u64);
        push_str(&mut s, "}: ");
        push_str(&mut s, st.message.as_str());
        let ghost before = string_views(out@);
        out.push(s);
        assert(string_views(out@) =~= before.push(c[i as int]));
        assert(c.take(i + 1) =~= c.take(i as int).push(c[i as int]));
        i += 1;
    }
    assert(c.take(i as int) =~= c);
    match at_point {
        None => out,
        Some(idx) => {
            let mut prefix = owned("stash@{");
            push_decimal(&mut prefix, idx as u64);
            push_str(&mut prefix, "}:");
            let ghost p = prefix@;
            let mut k: usize = 0;
            let mut found = false;
            while k < out.len() && !found
                invariant
                    k <= out@.len(),
                    string_views(out@) == c,
                    prefix@ == p,
                    found ==> k < out@.len() && starts_with(c[k as int], p),
                    forall|j: int| 0 <= j < k ==> !starts_with(#[trigger] c[j], p),
                decreases out.len() - k + if found { 0int } else { 1int },
            {
                let cs = chars_of(out[k].as_str());
                if starts_with_str(&cs, prefix.as_str()) {
                    found = true;
                } else {
                    k += 1;
                }
            }
            if found {
                proof {
                    lemma_first_prefixed(c, p, k as int);
                }
                let at = out.remove(k);
                let ghost rest = string_views(out@);
                assert(rest =~= c.remove(k as int));
                out.insert(0, at);
                assert(string_views(out@) =~= seq![c[k as int]] + rest);
            } else {
                proof {
                    lemma_none_prefixed(c, p);
                }
            }
            out
        },
    }
}

/// The remote the remote menu is scoped to: the current branch's
/// configured remote (unless it is `.`, the repository itself), else the
/// only remote there is.
pub open spec fn current_remote_spec(configured: Option<Seq<char>>, remotes: Seq<Seq<char>>) -> Option<Seq<char>> {
    let c = match configured {
        Some(o) => if trim(o).len() > 0 && trim(o) != "."@ {
            Some(trim(o))
        } else {
            None
        },
        None => None,
    };
    match c {
        Some(t) => Some(t),
        None => if remotes.len() == 1 {
            Some(remotes[0])
        } else {
            None
        },
    }
}

/// The config key naming a branch's remote.
pub fn remote_config_key(branch: &str) -> (r: String)
    ensures
        r@ == "branch."@ + branch@ + ".remote"@,
{
    let mut k = cat("branch.", branch);
    push_str(&mut k, ".remote");
    k
}

/// `configured` is the output of `git config --get branch.<b>.remote` when
/// on a branch and that read succeeded.
pub fn current_remote(configured: Option<&str>, remotes: &Vec<String>) -> (r: Option<String>)
    ensures
        match r {
            Some(x) => current_remote_spec(
                match configured {
                    Some(o) => Some(o@),
                    None => None,
                },
                string_views(remotes@),
            ) == Some(x@),
            None => current_remote_spec(
                match configured {
                    Some(o) => Some(o@),
                    None => None,
                },
                string_views(remotes@),
            ) is None,
        },
{
    if let Some(o) = configured {
        let t = trim_exec(&chars_of(o));
        let dot = chars_of(".");
        if t.len() > 0 && !crate::text::eq_chars(&t, &dot) {
            return Some(string_of(&t));
        }
    }
    if remotes.len() == 1 {
        Some(remotes[0].clone())
    } else {
        None
    }
}

proof fn lemma_decimal_has_no_colon(n: nat)
    ensures
        forall|i: int| 0 <= i < decimal(n).len() ==> decimal(n)[i] != ':',
    decreases n,
{
    if n >= 10 {
        lemma_decimal_has_no_colon(n / 10);
        let d = digit_char(n % 10);
        assert(d != ':') by {
            assert(('0' as int + (n % 10)) < ':' as int);
        }
        assert forall|i: int| 0 <= i < decimal(n).len() implies decimal(n)[i] != ':' by {
            if i < decimal(n / 10).len() {
                assert(decimal(n)[i] == decimal(n / 10)[i]);
            }
        }
    } else {
        assert(('0' as int + n) < ':' as int);
    }
}

/// Picking a stash from the list gives back its ref: the stash actions
/// peel `stash@{N}` off every candidate the stash picker offers, whatever
/// its message.
pub proof fn law_stash_candidate_names_its_stash(st: StashInfo)
    ensures
        stash_ref(stash_candidate(st)) == "stash@{"@ + decimal(st.index as nat) + "}"@,
{
    reveal_strlit("stash@{");
    reveal_strlit("}");
    reveal_strlit("}: ");
    reveal_strlit(": ");
    reveal_strlit(":");
    let head = "stash@{"@ + decimal(st.index as nat) + "}"@;
    let c = stash_candidate(st);
    let k = head.len() as int;
    lemma_decimal_has_no_colon(st.index as nat);
    assert(c =~= head + ": "@ + st.message@);
    assert forall|j: int| 0 <= j < k implies c[j] != ':' by {
        if j < 7 {
            assert(c[j] == "stash@{"@[j]);
        } else if j < 7 + decimal(st.index as nat).len() {
            assert(c[j] == decimal(st.index as nat)[j - 7]);
        } else {
            assert(c[j] == '}');
        }
    }
    assert forall|j: int| 0 <= j < k && j <= c.len() implies !starts_with(#[trigger] c.subrange(j, c.len() as int), ":"@) by {
        if starts_with(c.subrange(j, c.len() as int), ":"@) {
            assert(c.subrange(j, c.len() as int).subrange(0, 1)[0] == ':');
            assert(c[j] == ':');
        }
    }
    assert(starts_with(c.subrange(k, c.len() as int), ":"@)) by {
        assert(c.subrange(k, c.len() as int).subrange(0, 1) =~= ":"@);
    }
    lemma_find_at(c, ":"@, k);
    assert(c.subrange(0, k) =~= head);
    assert(starts_with(head, "stash@{"@)) by {
        assert(head.subrange(0, 7) =~= "stash@{"@);
    }
}

} // verus!
