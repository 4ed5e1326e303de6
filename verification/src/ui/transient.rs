//! Data-driven transient menus (Magit's popup system). A transient is pure
//! data: groups of switches and actions. While one is open it captures all
//! keys; actions collect the enabled switches into CLI flags.

use vstd::prelude::*;

use crate::keymap::{KeyCode, KeyPress};
use crate::order::{
    entry_keys, entry_lookup, map_get, map_insert, map_remove, set_contains, set_insert,
    set_remove, str_views, strictly_sorted,
};
use crate::text::{chars_of, eq_chars, has_prefix, push_char, push_str, starts_with};

verus! {

/// What an action ultimately runs. The app maps these to git invocations.
#[derive(Debug, Clone, Copy, PartialEq, Eq, Structural)]
pub enum TransientAction {
    Commit,
    CommitAmend,
    CommitExtend,
    /// Push the current branch to its push-remote.
    PushToPushRemote,
    /// Push the current branch to its upstream.
    PushToUpstream,
    /// Opens a picker over remote branches, then pushes the current branch
    /// to the chosen target.
    PushElsewhere,
    /// Opens pickers for a local branch and its remote target, then pushes.
    PushOther,
    /// Opens a picker for the remote, then a minibuffer for the refspecs.
    PushRefspecs,
    /// Push all matching branches to a chosen remote.
    PushMatching,
    /// Opens pickers for a tag and the remote to push it to.
    PushTag,
    /// Push all tags to a chosen remote.
    PushTags,
    /// Pull into the current branch from its push-remote.
    PullFromPushRemote,
    /// Pull into the current branch from its upstream.
    PullFromUpstream,
    /// Opens a picker over remote branches, then pulls from the chosen one.
    PullElsewhere,
    /// Fetch from the current branch's push-remote.
    FetchFromPushRemote,
    /// Fetch from the current branch's upstream remote.
    FetchFromUpstream,
    /// Opens a picker over remotes, then fetches from the chosen one.
    FetchElsewhere,
    /// Fetch from all remotes.
    FetchAll,
    /// Opens a picker over remote branches, then fetches just that branch.
    FetchBranch,
    /// Opens a picker for the remote, then a minibuffer for the refspec.
    FetchRefspec,
    /// Opens a picker over branches, then merges headlessly (`--no-edit`).
    Merge,
    /// Like `Merge`, but hands the merge message to $EDITOR.
    MergeEdit,
    /// Merge without committing, so the result can be inspected first.
    MergeNoCommit,
    /// Squash the merged changes onto the worktree/index (no merge commit).
    MergeSquash,
    /// Merge a branch, then delete it (magit-merge-absorb).
    MergeAbsorb,
    /// Show what merging a revision would change, committing nothing.
    MergePreview,
    /// Check out another branch, merge the current one into it, then
    /// delete the current one (magit-merge-into).
    MergeInto,
    /// Abort the in-progress merge (after a y/n confirm).
    MergeAbort,
    /// Opens a picker over revisions, then cherry-picks onto HEAD.
    CherryPick,
    /// Cherry-pick without committing.
    CherryPickApply,
    /// Continue the in-progress cherry-pick (may open $EDITOR).
    CherryPickContinue,
    /// Skip the commit that stopped the in-progress cherry-pick.
    CherryPickSkip,
    /// Abort the in-progress cherry-pick (after a y/n confirm).
    CherryPickAbort,
    /// Opens a picker over revisions, then reverts with a new commit.
    Revert,
    /// Revert without committing.
    RevertNoCommit,
    /// Continue the in-progress revert (may open $EDITOR).
    RevertContinue,
    /// Skip the commit that stopped the in-progress revert.
    RevertSkip,
    /// Abort the in-progress revert (after a y/n confirm).
    RevertAbort,
    /// Rebase the current branch onto its upstream.
    RebaseUpstream,
    /// Opens a picker over branches, then rebases onto the chosen one.
    RebaseElsewhere,
    /// Like `RebaseElsewhere`, but interactive: the todo list opens in $EDITOR.
    RebaseInteractive,
    /// Continue the in-progress rebase (may open $EDITOR for a message).
    RebaseContinue,
    /// Skip the commit that stopped the in-progress rebase.
    RebaseSkip,
    /// Reopen the todo list of the in-progress interactive rebase in $EDITOR.
    RebaseEditTodo,
    /// Abort the in-progress rebase (after a y/n confirm).
    RebaseAbort,
    /// Reset HEAD and the index to a revision (`--mixed`).
    ResetMixed,
    /// Reset only HEAD to a revision (`--soft`).
    ResetSoft,
    /// Reset HEAD, index and worktree to a revision (`--hard`, confirmed).
    ResetHard,
    /// Reset HEAD and the index, keeping local changes (`--keep`).
    ResetKeep,
    /// Reset only the index to a revision (HEAD and worktree stay).
    ResetIndex,
    /// Reset only the worktree to a revision (HEAD and index stay,
    /// confirmed).
    ResetWorktree,
    /// Opens a minibuffer for the tag name, then a picker for the revision.
    TagCreate,
    /// Opens a picker over tags, then deletes the chosen one.
    TagDelete,
    /// Stash the worktree and index (`git stash push`).
    StashBoth,
    /// Stash only staged changes (`git stash push --staged`).
    StashIndex,
    /// Stash everything but leave the index applied (`--keep-index`).
    StashKeepIndex,
    /// Opens a picker over stashes, then applies the chosen one.
    StashApply,
    /// Like `StashApply`, but drops the stash afterwards.
    StashPop,
    /// Drop a stash (after a y/n confirm).
    StashDrop,
    /// Opens a picker over remotes, then a variables menu for the
    /// chosen one.
    RemoteConfigure,
    /// Opens a minibuffer for the remote name, then one for its URL.
    RemoteAdd,
    /// Opens a picker over remotes, then a minibuffer for the new name.
    RemoteRename,
    /// Opens a picker over remotes, then removes the chosen one.
    RemoteRemove,
    /// Opens a picker over remotes, then prunes stale tracking branches.
    RemotePrune,
    /// Opens a picker over branches and revisions, then checks it out.
    Checkout,
    /// Opens a picker over local branches only, then checks it out.
    CheckoutLocal,
    /// Opens a minibuffer for the new branch name, then a picker for the
    /// starting point, then checks the new branch out.
    CreateCheckoutBranch,
    /// Like `CreateCheckoutBranch`, but stays on the current branch.
    CreateBranch,
    /// Move the unpushed commits onto a new checked-out branch and reset
    /// the old branch to its upstream.
    BranchSpinoff,
    /// Like `BranchSpinoff`, but stay on the (reset) old branch.
    BranchSpinout,
    /// Opens a picker over local branches, then a minibuffer for its new name.
    BranchRename,
    /// Opens pickers for a local branch and the revision to reset it to.
    BranchReset,
    /// Opens a picker over local branches, then deletes the chosen one
    /// (confirmed first when it is unmerged).
    BranchDelete,
    /// Opens a picker over local branches, then a variables menu for
    /// the chosen one.
    BranchConfigure,
    /// Log the current branch (HEAD).
    LogCurrent,
    /// Log all refs (`--all`).
    LogAll,
    /// Opens a picker over refs, then logs the chosen one.
    LogOther,
    /// Asks for a path, then a branch to check out in a new worktree.
    WorktreeCheckout,
    /// Asks for a new branch, its start point and a path for its worktree.
    WorktreeBranch,
    /// Picks a linked worktree, then asks where to move it.
    WorktreeMove,
    /// Picks a linked worktree and removes it (after a y/n confirm).
    WorktreeDelete,
    /// Asks for a URL and an optional path, then adds a submodule.
    SubmoduleAdd,
    /// Registers every submodule (`submodule init`).
    SubmoduleRegister,
    /// Clones and checks out every submodule.
    SubmodulePopulate,
    /// Updates every submodule.
    SubmoduleUpdate,
    /// Synchronizes every submodule's URL.
    SubmoduleSync,
    /// Picks a submodule and removes its working tree (`deinit`).
    SubmoduleUnpopulate,
    /// Picks a submodule and deletes it entirely (after a y/n confirm).
    SubmoduleRemove,
}

#[derive(Debug, Clone, Copy)]
pub enum Item {
    /// A boolean flag, toggled on/off.
    Switch { key: &'static str, flag: &'static str, desc: &'static str },
    /// A flag that takes a value (e.g. `--author=`). Selecting it prompts for
    /// the value; `flag` must end so the value appends directly (`--author=`,
    /// `--max-count=`). Set to empty to clear it.
    Arg { key: &'static str, flag: &'static str, desc: &'static str },
    Action { key: &'static str, desc: &'static str, action: TransientAction },
    /// A git config variable: shows the current value, and selecting it
    /// prompts for a new one (empty unsets). `{}` in `var` is replaced by
    /// the transient's scope (a branch or remote name); scoped variables
    /// are hidden while there is no scope.
    Variable { key: &'static str, var: &'static str },
}

pub open spec fn item_key(i: Item) -> &'static str {
    match i {
        Item::Switch { key, .. } => key,
        Item::Arg { key, .. } => key,
        Item::Action { key, .. } => key,
        Item::Variable { key, .. } => key,
    }
}

impl Item {
    /// The key sequence that selects the item.
    pub fn key(&self) -> (r: &'static str)
        ensures
            r == item_key(*self),
    {
        match self {
            Item::Switch { key, .. } => key,
            Item::Arg { key, .. } => key,
            Item::Action { key, .. } => key,
            Item::Variable { key, .. } => key,
        }
    }
}

/// `s` with every `{}` replaced by `scope`, left to right.
pub open spec fn resolve_var_spec(s: Seq<char>, scope: Seq<char>) -> Seq<char>
    decreases s.len(),
{
    if s.len() == 0 {
        s
    } else if s.len() >= 2 && s[0] == '{' && s[1] == '}' {
        scope + resolve_var_spec(s.subrange(2, s.len() as int), scope)
    } else {
        seq![s[0]] + resolve_var_spec(s.drop_first(), scope)
    }
}

/// Whether `s` holds a `{}` placeholder.
pub open spec fn has_placeholder(s: Seq<char>) -> bool {
    exists|i: int| 0 <= i < s.len() - 1 && #[trigger] s[i] == '{' && s[i + 1] == '}'
}

/// Resolve a variable template against the transient's scope:
/// `remote.{}.url` + "origin" → `remote.origin.url`.
pub fn resolve_var(var: &str, scope: &str) -> (r: String)
    ensures
        r@ == resolve_var_spec(var@, scope@),
{
    let v = crate::text::chars_of(var);
    let n = v.len();
    let mut out = String::new();
    let mut i: usize = 0;
    assert(v@.subrange(0, n as int) =~= v@);
    assert(out@ =~= Seq::<char>::empty());
    while i < n
        invariant
            n == v@.len(),
            v@ == var@,
            i <= n,
            out@ + resolve_var_spec(v@.subrange(i as int, n as int), scope@) == resolve_var_spec(v@, scope@),
        decreases n - i,
    {
        let ghost rest = v@.subrange(i as int, n as int);
        if i + 1 < n && v[i] == '{' && v[i + 1] == '}' {
            proof {
                assert(rest.subrange(2, rest.len() as int) =~= v@.subrange(i + 2, n as int));
            }
            push_str(&mut out, scope);
            i += 2;
        } else {
            proof {
                assert(rest.drop_first() =~= v@.subrange(i + 1, n as int));
                assert(rest[0] == v@[i as int]);
            }
            let ghost before = out@;
            push_char(&mut out, v[i]);
            proof {
                assert(out@ + resolve_var_spec(v@.subrange(i + 1, n as int), scope@) =~= before + (seq![
                    v@[i as int],
                ] + resolve_var_spec(v@.subrange(i + 1, n as int), scope@)));
            }
            i += 1;
        }
    }
    assert(v@.subrange(n as int, n as int) =~= Seq::<char>::empty());
    out
}

fn has_placeholder_exec(s: &str) -> (r: bool)
    ensures
        r == has_placeholder(s@),
{
    let v = crate::text::chars_of(s);
    let mut i: usize = 0;
    while i < v.len() && i + 1 < v.len()
        invariant
            v@ == s@,
            i <= v@.len(),
            forall|j: int| 0 <= j < i && j < v@.len() - 1 ==> !(#[trigger] v@[j] == '{' && v@[j + 1] == '}'),
        decreases v.len() - i,
    {
        if v[i] == '{' && v[i + 1] == '}' {
            return true;
        }
        i += 1;
    }
    false
}

#[derive(Debug)]
pub struct GroupDef {
    pub title: &'static str,
    pub items: Vec<Item>,
}

#[derive(Debug)]
pub struct TransientDef {
    pub title: &'static str,
    pub groups: Vec<GroupDef>,
    /// Switch flags enabled when the menu opens (Magit's `:value`).
    pub defaults: Vec<&'static str>,
    /// Sets of mutually exclusive switches (Magit's `:incompatible`):
    /// enabling one clears the others in its set.
    pub incompatible: Vec<Vec<&'static str>>,
}

#[verifier::ext_equal]
pub struct GroupView {
    pub title: &'static str,
    pub items: Seq<Item>,
}

#[verifier::ext_equal]
pub struct DefView {
    pub title: &'static str,
    pub groups: Seq<GroupView>,
    pub defaults: Seq<&'static str>,
    pub incompatible: Seq<Seq<&'static str>>,
}

impl View for GroupDef {
    type V = GroupView;

    open spec fn view(&self) -> GroupView {
        GroupView { title: self.title, items: self.items@ }
    }
}

impl View for TransientDef {
    type V = DefView;

    open spec fn view(&self) -> DefView {
        DefView {
            title: self.title,
            groups: self.groups@.map_values(|g: GroupDef| g@),
            defaults: self.defaults@,
            incompatible: self.incompatible@.map_values(|s: Vec<&'static str>| s@),
        }
    }
}

/// All items of the groups, in order.
pub open spec fn flat_items(groups: Seq<GroupView>) -> Seq<Item>
    decreases groups.len(),
{
    if groups.len() == 0 {
        Seq::empty()
    } else {
        flat_items(groups.drop_last()) + groups.last().items
    }
}

/// Scoped variables only make sense once there is a scope.
pub open spec fn visible(item: Item, has_scope: bool) -> bool {
    match item {
        Item::Variable { var, .. } => !(has_placeholder(var@) && !has_scope),
        _ => true,
    }
}

/// The first visible item whose key is `p`.
pub open spec fn find_item(items: Seq<Item>, has_scope: bool, p: Seq<char>) -> Option<Item>
    decreases items.len(),
{
    if items.len() == 0 {
        None
    } else {
        match find_item(items.drop_last(), has_scope, p) {
            Some(i) => Some(i),
            None => if visible(items.last(), has_scope) && item_key(items.last())@ == p {
                Some(items.last())
            } else {
                None
            },
        }
    }
}

/// Some visible item's key starts with `p`.
pub open spec fn any_prefixed(items: Seq<Item>, has_scope: bool, p: Seq<char>) -> bool {
    exists|i: int|
        0 <= i < items.len() && visible(items[i], has_scope) && p.len() <= item_key(
            #[trigger] items[i],
        )@.len() && item_key(items[i])@.subrange(0, p.len() as int) == p
}

/// The switches that enabling `flag` clears: the others of each
/// incompatible set that holds it.
pub open spec fn cleared_by(incompatible: Seq<Seq<&'static str>>, flag: Seq<char>, o: Seq<char>) -> bool {
    o != flag && exists|k: int|
        0 <= k < incompatible.len() && str_views(#[trigger] incompatible[k]).contains(flag) && str_views(
            incompatible[k],
        ).contains(o)
}

/// The enabled switches after selecting the switch `flag`: on again it
/// goes off; off, it comes on and clears the rest of its incompatible sets.
pub open spec fn toggled(
    enabled: Set<Seq<char>>,
    flag: Seq<char>,
    incompatible: Seq<Seq<&'static str>>,
) -> Set<Seq<char>> {
    if enabled.contains(flag) {
        enabled.remove(flag)
    } else {
        enabled.insert(flag).filter(|o: Seq<char>| !cleared_by(incompatible, flag, o))
    }
}

/// Selecting an enabled switch twice turns it off and on again, leaving
/// the others as they were, when none of its incompatible partners is on.
pub proof fn law_toggle_twice_restores(
    enabled: Set<Seq<char>>,
    flag: Seq<char>,
    incompatible: Seq<Seq<&'static str>>,
)
    requires
        enabled.contains(flag),
        forall|o: Seq<char>| enabled.contains(o) ==> !cleared_by(incompatible, flag, o),
    ensures
        toggled(toggled(enabled, flag, incompatible), flag, incompatible) == enabled,
{
    let off = toggled(enabled, flag, incompatible);
    assert(!off.contains(flag));
    assert(toggled(off, flag, incompatible) =~= enabled);
}

/// Selecting a switch that is off turns it on; no switch that it is
/// incompatible with stays on.
pub proof fn law_toggle_on_clears_partners(
    enabled: Set<Seq<char>>,
    flag: Seq<char>,
    incompatible: Seq<Seq<&'static str>>,
)
    requires
        !enabled.contains(flag),
    ensures
        toggled(enabled, flag, incompatible).contains(flag),
        forall|o: Seq<char>| #[trigger] cleared_by(incompatible, flag, o) ==> !toggled(enabled, flag, incompatible).contains(o),
{
}

/// Esc or C-g.
pub open spec fn is_cancel_key(kp: KeyPress) -> bool {
    kp.code == KeyCode::Esc || (kp.code == KeyCode::Char('g') && kp.mods.ctrl)
}

/// A currently-open transient: the definition plus toggled switches and the
/// multi-char key input buffer (switch keys like "-a" are two keystrokes).
/// Flags and keyed entries are kept in ascending order of their text, each
/// once (as a `BTreeSet` and `BTreeMap` keep them).
#[derive(Debug)]
pub struct TransientState {
    pub def: TransientDef,
    pub enabled: Vec<&'static str>,
    /// Value arguments (`--author=` → "ada"), set via a value prompt.
    pub values: Vec<(&'static str, String)>,
    /// What `{}` in variable items resolves to (a branch or remote name).
    pub scope: Option<String>,
    /// Current values of the definition's variable items, keyed by the
    /// unresolved template; absent means unset. The app loads these when
    /// the menu opens and after each edit.
    pub variables: Vec<(&'static str, String)>,
    /// Variables with a fixed set of values: all choices render inline
    /// and the key cycles through them instead of prompting. Loaded by
    /// the app.
    pub var_choices: Vec<(&'static str, Vec<String>)>,
    /// The trailing `[...]` segment for a choice variable (the fallback
    /// variable's current value, "pull.rebase:true", or the built-in
    /// default, "default:false"), highlighted while the variable is unset.
    pub var_fallbacks: Vec<(&'static str, String)>,
    pub pending: String,
}

/// Outcome of feeding one key to an open transient.
#[derive(Debug, Clone, PartialEq, Eq)]
pub enum TransientResult {
    /// Key consumed (switch toggled or prefix pending); keep the menu open.
    Consumed,
    /// Prompt for this value argument's value; the menu stays open.
    Prompt { flag: &'static str, desc: &'static str },
    /// Prompt for a new value of this config variable; the menu stays open.
    EditVariable { var: &'static str },
    /// Run this action with these collected CLI flags; menu closes.
    Invoke(TransientAction, Vec<String>),
    /// Close without running anything.
    Cancel,
    /// Key didn't match any item.
    Unbound,
}

pub open spec fn string_views(v: Seq<String>) -> Seq<Seq<char>> {
    v.map_values(|s: String| s@)
}

pub open spec fn value_args(values: Seq<(&'static str, String)>) -> Seq<Seq<char>> {
    values.map_values(|p: (&'static str, String)| p.0@ + p.1@)
}

impl TransientState {
    /// Flags and keys in ascending order, each once.
    pub open spec fn wf(&self) -> bool {
        &&& strictly_sorted(str_views(self.enabled@))
        &&& strictly_sorted(entry_keys(self.values@))
        &&& strictly_sorted(entry_keys(self.variables@))
        &&& strictly_sorted(entry_keys(self.var_choices@))
        &&& strictly_sorted(entry_keys(self.var_fallbacks@))
    }

    /// The enabled switches.
    pub open spec fn flags(&self) -> Set<Seq<char>> {
        str_views(self.enabled@).to_set()
    }

    /// The value of the value argument `flag`.
    pub open spec fn value_of(&self, flag: Seq<char>) -> Option<Seq<char>> {
        match entry_lookup(self.values@, flag) {
            Some(v) => Some(v@),
            None => None,
        }
    }

    /// The value of the variable `var`.
    pub open spec fn variable_of(&self, var: Seq<char>) -> Option<Seq<char>> {
        match entry_lookup(self.variables@, var) {
            Some(v) => Some(v@),
            None => None,
        }
    }

    /// The CLI arguments: the enabled switches, then each value argument
    /// with its value, each in ascending order.
    pub open spec fn args_spec(&self) -> Seq<Seq<char>> {
        str_views(self.enabled@) + value_args(self.values@)
    }

    /// Everything but the pending keys and the enabled switches.
    pub open spec fn same_settings(&self, other: &TransientState) -> bool {
        &&& self.def@ == other.def@
        &&& self.values@ == other.values@
        &&& self.scope == other.scope
        &&& self.variables@ == other.variables@
        &&& self.var_choices@ == other.var_choices@
        &&& self.var_fallbacks@ == other.var_fallbacks@
    }
}


/// What feeding the key `kp` to the transient `o` does: `n` is the
/// transient afterwards and `r` what comes back.
pub open spec fn on_key_spec(o: &TransientState, n: &TransientState, kp: KeyPress, r: TransientResult) -> bool {
    if is_cancel_key(kp) {
        &&& n.enabled@ == o.enabled@
        &&& if o.pending@.len() == 0 {
            r == TransientResult::Cancel && n.pending@ == o.pending@
        } else {
            r == TransientResult::Consumed && n.pending@.len() == 0
        }
    } else {
        match kp.code {
            KeyCode::Char(c) => {
                let p = o.pending@.push(c);
                let items = flat_items(o.def@.groups);
                let hs = o.scope is Some;
                match find_item(items, hs, p) {
                    Some(Item::Switch { flag, .. }) => {
                        &&& r == TransientResult::Consumed
                        &&& n.pending@.len() == 0
                        &&& n.flags() == toggled(o.flags(), flag@, o.def@.incompatible)
                    },
                    Some(Item::Arg { flag, desc, .. }) => {
                        &&& r == TransientResult::Prompt { flag, desc }
                        &&& n.pending@.len() == 0
                        &&& n.enabled@ == o.enabled@
                    },
                    Some(Item::Action { action, .. }) => {
                        &&& r matches TransientResult::Invoke(a, args) && a == action && string_views(
                            args@,
                        ) == o.args_spec()
                        &&& n.pending@.len() == 0
                        &&& n.enabled@ == o.enabled@
                    },
                    Some(Item::Variable { var, .. }) => {
                        &&& r == TransientResult::EditVariable { var }
                        &&& n.pending@.len() == 0
                        &&& n.enabled@ == o.enabled@
                    },
                    None => {
                        &&& n.enabled@ == o.enabled@
                        &&& if any_prefixed(items, hs, p) {
                            r == TransientResult::Consumed && n.pending@ == p
                        } else {
                            r == TransientResult::Unbound && n.pending@.len() == 0
                        }
                    },
                }
            },
            _ => r == TransientResult::Unbound && n.pending@ == o.pending@ && n.enabled@ == o.enabled@,
        }
    }
}

proof fn lemma_find_item_none(items: Seq<Item>, hs: bool, p: Seq<char>)
    requires
        find_item(items, hs, p) is None,
    ensures
        forall|i: int| 0 <= i < items.len() && visible(#[trigger] items[i], hs) ==> item_key(items[i])@ != p,
    decreases items.len(),
{
    if items.len() > 0 {
        let init = items.drop_last();
        lemma_find_item_none(init, hs, p);
        assert forall|i: int| 0 <= i < items.len() && visible(#[trigger] items[i], hs) implies item_key(items[i])@ != p by {
            if i < init.len() {
                assert(init[i] == items[i]);
            }
        }
    }
}

/// A character key in an open transient: an action runs with the menu's
/// current arguments and leaves the switches and values as they were; an
/// unbound key clears the typed keys and changes nothing else; a key that
/// is taken without effect either finished a switch (the typed keys are
/// cleared) or leaves a strict prefix of some shown item's key typed.
pub proof fn law_transient_on_key(o: &TransientState, n: &TransientState, kp: KeyPress, r: TransientResult)
    requires
        on_key_spec(o, n, kp, r),
        n.same_settings(o),
        kp.code is Char,
        !is_cancel_key(kp),
    ensures
        r matches TransientResult::Invoke(a, args) ==> string_views(args@) == o.args_spec() && n.enabled@
            == o.enabled@ && n.values@ == o.values@ && n.pending@.len() == 0,
        r == TransientResult::Unbound ==> n.pending@.len() == 0 && n.enabled@ == o.enabled@,
        r == TransientResult::Consumed ==> n.pending@.len() == 0 || exists|i: int|
            0 <= i < flat_items(o.def@.groups).len() && visible(#[trigger] flat_items(o.def@.groups)[i], o.scope is Some)
                && n.pending@.len() < item_key(flat_items(o.def@.groups)[i])@.len() && item_key(
                flat_items(o.def@.groups)[i],
            )@.subrange(0, n.pending@.len() as int) == n.pending@,
{
    if let KeyCode::Char(c) = kp.code {
        let p = o.pending@.push(c);
        let items = flat_items(o.def@.groups);
        let hs = o.scope is Some;
        if find_item(items, hs, p) is None && any_prefixed(items, hs, p) {
            lemma_find_item_none(items, hs, p);
            let i = choose|i: int|
                0 <= i < items.len() && visible(items[i], hs) && p.len() <= item_key(#[trigger] items[i])@.len()
                    && item_key(items[i])@.subrange(0, p.len() as int) == p;
            if p.len() == item_key(items[i])@.len() {
                assert(item_key(items[i])@ =~= item_key(items[i])@.subrange(0, p.len() as int));
            }
        }
    }
}

fn str_list_contains(v: &Vec<&'static str>, x: &str) -> (r: bool)
    ensures
        r == str_views(v@).contains(x@),
{
    let mut i: usize = 0;
    while i < v.len()
        invariant
            i <= v@.len(),
            forall|j: int| 0 <= j < i ==> (#[trigger] str_views(v@)[j]) != x@,
        decreases v.len() - i,
    {
        if crate::order::str_compare(v[i], x) == 0 {
            assert(str_views(v@)[i as int] == x@);
            return true;
        }
        i += 1;
    }
    false
}

proof fn lemma_flat_step(groups: Seq<GroupView>, gi: int)
    requires
        0 <= gi < groups.len(),
    ensures
        flat_items(groups.take(gi + 1)) == flat_items(groups.take(gi)) + groups[gi].items,
{
    assert(groups.take(gi + 1).drop_last() =~= groups.take(gi));
    assert(groups.take(gi + 1).last() == groups[gi]);
}

proof fn lemma_find_step(items: Seq<Item>, x: Item, hs: bool, p: Seq<char>)
    ensures
        find_item(items.push(x), hs, p) == match find_item(items, hs, p) {
            Some(i) => Some(i),
            None => if visible(x, hs) && item_key(x)@ == p {
                Some(x)
            } else {
                None
            },
        },
        any_prefixed(items.push(x), hs, p) == (any_prefixed(items, hs, p) || (visible(x, hs)
            && starts_with(item_key(x)@, p))),
{
    assert(items.push(x).drop_last() =~= items);
    let n = items.push(x);
    if any_prefixed(n, hs, p) {
        let i = choose|i: int|
            0 <= i < n.len() && visible(n[i], hs) && p.len() <= item_key(#[trigger] n[i])@.len()
                && item_key(n[i])@.subrange(0, p.len() as int) == p;
        if i < items.len() {
            assert(n[i] == items[i]);
        }
    }
    if any_prefixed(items, hs, p) {
        let i = choose|i: int|
            0 <= i < items.len() && visible(items[i], hs) && p.len() <= item_key(#[trigger] items[i])@.len()
                && item_key(items[i])@.subrange(0, p.len() as int) == p;
        assert(n[i] == items[i]);
    }
    if visible(x, hs) && starts_with(item_key(x)@, p) {
        assert(n[items.len() as int] == x);
    }
}

impl TransientState {
    /// Open `def`: its default switches enabled, nothing else set.
    pub fn new(def: TransientDef) -> (r: TransientState)
        ensures
            r.wf(),
            r.def@ == def@,
            r.flags() == str_views(def@.defaults).to_set(),
            r.values@.len() == 0,
            r.scope is None,
            r.variables@.len() == 0,
            r.var_choices@.len() == 0,
            r.var_fallbacks@.len() == 0,
            r.pending@.len() == 0,
    {
        let mut enabled: Vec<&'static str> = Vec::new();
        let mut i: usize = 0;
        let ghost d = str_views(def.defaults@);
        while i < def.defaults.len()
            invariant
                d == str_views(def.defaults@),
                i <= def.defaults@.len(),
                strictly_sorted(str_views(enabled@)),
                forall|y: Seq<char>| #[trigger] str_views(enabled@).contains(y) <==> d.take(i as int).contains(y),
            decreases def.defaults.len() - i,
        {
            set_insert(&mut enabled, def.defaults[i]);
            proof {
                assert(d.take(i + 1) =~= d.take(i as int).push(d[i as int]));
                assert forall|y: Seq<char>| #[trigger] d.take(i + 1).contains(y) <==> (d.take(i as int).contains(y) || y == d[i as int]) by {
                    if d.take(i + 1).contains(y) {
                        let j = choose|j: int| 0 <= j < d.take(i + 1).len() && #[trigger] d.take(i + 1)[j] == y;
                        if j < i {
                            assert(d.take(i as int)[j] == y);
                        }
                    }
                    if d.take(i as int).contains(y) {
                        let j = choose|j: int| 0 <= j < d.take(i as int).len() && #[trigger] d.take(i as int)[j] == y;
                        assert(d.take(i + 1)[j] == y);
                    }
                    if y == d[i as int] {
                        assert(d.take(i + 1)[i as int] == y);
                    }
                }
            }
            i += 1;
        }
        assert(d.take(d.len() as int) =~= d);
        let r = TransientState {
            def,
            enabled,
            values: Vec::new(),
            scope: None,
            variables: Vec::new(),
            var_choices: Vec::new(),
            var_fallbacks: Vec::new(),
            pending: String::new(),
        };
        assert(r.flags() =~= str_views(r.def@.defaults).to_set());
        r
    }

    /// Whether the switch `flag` is on.
    pub fn is_enabled(&self, flag: &str) -> (r: bool)
        requires
            self.wf(),
        ensures
            r == self.flags().contains(flag@),
    {
        set_contains(&self.enabled, flag)
    }

    /// Set (or clear, when empty) a value argument's value.
    pub fn set_value(&mut self, flag: &'static str, value: String)
        requires
            old(self).wf(),
        ensures
            final(self).wf(),
            final(self).value_of(flag@) == (if value@.len() == 0 {
                None
            } else {
                Some(value@)
            }),
            forall|f: Seq<char>| f != flag@ ==> final(self).value_of(f) == old(self).value_of(f),
            final(self).enabled@ == old(self).enabled@,
            final(self).variables@ == old(self).variables@,
            final(self).pending@ == old(self).pending@,
            final(self).def == old(self).def,
            final(self).scope == old(self).scope,
            final(self).var_choices == old(self).var_choices,
            final(self).var_fallbacks == old(self).var_fallbacks,
    {
        if value.as_str().is_empty() {
            map_remove(&mut self.values, flag);
        } else {
            map_insert(&mut self.values, flag, value);
        }
    }

    /// Record a variable's (re-read) value; `None` means unset.
    pub fn set_variable(&mut self, var: &'static str, value: Option<String>)
        requires
            old(self).wf(),
        ensures
            final(self).wf(),
            final(self).variable_of(var@) == (match value {
                Some(v) => Some(v@),
                None => None,
            }),
            forall|k: Seq<char>| k != var@ ==> final(self).variable_of(k) == old(self).variable_of(k),
            final(self).enabled@ == old(self).enabled@,
            final(self).values@ == old(self).values@,
            final(self).def == old(self).def,
            final(self).scope == old(self).scope,
            final(self).pending == old(self).pending,
            final(self).var_choices == old(self).var_choices,
            final(self).var_fallbacks == old(self).var_fallbacks,
    {
        match value {
            Some(v) => map_insert(&mut self.variables, var, v),
            None => map_remove(&mut self.variables, var),
        }
    }

    /// Give the choice variable `var` its fixed set of values.
    pub fn set_var_choices(&mut self, var: &'static str, choices: Vec<String>)
        requires
            old(self).wf(),
        ensures
            final(self).wf(),
            entry_lookup(final(self).var_choices@, var@) == Some(choices),
            forall|k: Seq<char>| k != var@ ==> entry_lookup(final(self).var_choices@, k) == entry_lookup(
                old(self).var_choices@,
                k,
            ),
            final(self).enabled@ == old(self).enabled@,
            final(self).values == old(self).values,
            final(self).variables == old(self).variables,
            final(self).def == old(self).def,
            final(self).scope == old(self).scope,
            final(self).pending == old(self).pending,
            final(self).var_fallbacks == old(self).var_fallbacks,
    {
        map_insert(&mut self.var_choices, var, choices);
    }

    /// Give the choice variable `var` the fallback shown while it is unset.
    pub fn set_var_fallback(&mut self, var: &'static str, fallback: String)
        requires
            old(self).wf(),
        ensures
            final(self).wf(),
            entry_lookup(final(self).var_fallbacks@, var@) == Some(fallback),
            forall|k: Seq<char>| k != var@ ==> entry_lookup(final(self).var_fallbacks@, k) == entry_lookup(
                old(self).var_fallbacks@,
                k,
            ),
            final(self).enabled@ == old(self).enabled@,
            final(self).values == old(self).values,
            final(self).variables == old(self).variables,
            final(self).def == old(self).def,
            final(self).scope == old(self).scope,
            final(self).pending == old(self).pending,
            final(self).var_choices == old(self).var_choices,
    {
        map_insert(&mut self.var_fallbacks, var, fallback);
    }

    /// Scoped variables only make sense once there is a scope.
    pub fn item_visible(&self, item: &Item) -> (r: bool)
        ensures
            r == visible(*item, self.scope is Some),
    {
        match item {
            Item::Variable { var, .. } => !(has_placeholder_exec(var) && self.scope.is_none()),
            _ => true,
        }
    }

    /// The CLI arguments the enabled switches and value arguments make.
    pub fn args(&self) -> (r: Vec<String>)
        ensures
            string_views(r@) == self.args_spec(),
    {
        let mut out: Vec<String> = Vec::new();
        let mut i: usize = 0;
        while i < self.enabled.len()
            invariant
                i <= self.enabled@.len(),
                string_views(out@) == str_views(self.enabled@).take(i as int),
            decreases self.enabled.len() - i,
        {
            let ghost before = string_views(out@);
            out.push(String::from_str(self.enabled[i]));
            assert(string_views(out@) =~= before.push(self.enabled@[i as int]@));
            assert(str_views(self.enabled@).take(i + 1) =~= str_views(self.enabled@).take(i as int).push(
                self.enabled@[i as int]@,
            ));
            i += 1;
        }
        assert(str_views(self.enabled@).take(i as int) =~= str_views(self.enabled@));
        let ghost base = string_views(out@);
        let mut j: usize = 0;
        while j < self.values.len()
            invariant
                j <= self.values@.len(),
                base == str_views(self.enabled@),
                string_views(out@) == base + value_args(self.values@).take(j as int),
            decreases self.values.len() - j,
        {
            let ghost before = string_views(out@);
            let mut a = String::from_str(self.values[j].0);
            push_str(&mut a, self.values[j].1.as_str());
            out.push(a);
            let ghost item = self.values@[j as int].0@ + self.values@[j as int].1@;
            assert(string_views(out@) =~= before.push(item));
            assert(value_args(self.values@).take(j + 1) =~= value_args(self.values@).take(j as int).push(item));
            j += 1;
        }
        assert(value_args(self.values@).take(j as int) =~= value_args(self.values@));
        out
    }

    /// Toggle the switch `flag`; turning it on clears the rest of its
    /// incompatible sets.
    fn toggle(&mut self, flag: &'static str)
        requires
            old(self).wf(),
        ensures
            final(self).wf(),
            final(self).same_settings(&*old(self)),
            final(self).pending@ == old(self).pending@,
            final(self).flags() == toggled(old(self).flags(), flag@, old(self).def@.incompatible),
    {
        let ghost o = str_views(self.enabled@).to_set();
        let ghost inc = self.def@.incompatible;
        if set_contains(&self.enabled, flag) {
            set_remove(&mut self.enabled, flag);
            assert(self.flags() =~= o.remove(flag@));
            return;
        }
        set_insert(&mut self.enabled, flag);
        let mut k: usize = 0;
        while k < self.def.incompatible.len()
            invariant
                self.wf(),
                self.same_settings(&*old(self)),
                self.pending@ == old(self).pending@,
                inc == self.def@.incompatible,
                k <= inc.len(),
                forall|y: Seq<char>| #[trigger] str_views(self.enabled@).contains(y) <==> ((o.contains(y) || y == flag@)
                    && !cleared_by(inc.take(k as int), flag@, y)),
            decreases self.def.incompatible.len() - k,
        {
            let ghost before = str_views(self.enabled@);
            proof {
                assert(inc[k as int] == self.def.incompatible@[k as int]@);
                assert forall|y: Seq<char>| #[trigger] cleared_by(inc.take(k + 1), flag@, y) <==> (cleared_by(inc.take(k as int), flag@, y)
                    || (y != flag@ && str_views(inc[k as int]).contains(flag@) && str_views(inc[k as int]).contains(y))) by {
                    if cleared_by(inc.take(k + 1), flag@, y) {
                        let t = choose|t: int| 0 <= t < inc.take(k + 1).len() && str_views(#[trigger] inc.take(k + 1)[t]).contains(flag@)
                            && str_views(inc.take(k + 1)[t]).contains(y);
                        if t < k {
                            assert(inc.take(k as int)[t] == inc.take(k + 1)[t]);
                        }
                    }
                    if cleared_by(inc.take(k as int), flag@, y) {
                        let t = choose|t: int| 0 <= t < inc.take(k as int).len() && str_views(#[trigger] inc.take(k as int)[t]).contains(flag@)
                            && str_views(inc.take(k as int)[t]).contains(y);
                        assert(inc.take(k + 1)[t] == inc.take(k as int)[t]);
                    }
                    if y != flag@ && str_views(inc[k as int]).contains(flag@) && str_views(inc[k as int]).contains(y) {
                        assert(inc.take(k + 1)[k as int] == inc[k as int]);
                    }
                }
            }
            if str_list_contains(&self.def.incompatible[k], flag) {
                let mut j: usize = 0;
                let ghost set_k = str_views(inc[k as int]);
                while j < self.def.incompatible[k].len()
                    invariant
                        self.wf(),
                        self.same_settings(&*old(self)),
                        self.pending@ == old(self).pending@,
                        inc == self.def@.incompatible,
                        k < inc.len(),
                        set_k == str_views(inc[k as int]),
                        set_k == str_views(self.def.incompatible@[k as int]@),
                        j <= set_k.len(),
                        forall|y: Seq<char>| #[trigger] str_views(self.enabled@).contains(y) <==> (before.contains(y)
                            && !(y != flag@ && set_k.take(j as int).contains(y))),
                    decreases set_k.len() - j,
                {
                    let other = self.def.incompatible[k][j];
                    let ghost mid = str_views(self.enabled@);
                    if crate::order::str_compare(other, flag) != 0 {
                        set_remove(&mut self.enabled, other);
                    }
                    proof {
                        assert(set_k.take(j + 1) =~= set_k.take(j as int).push(other@));
                        assert forall|y: Seq<char>| #[trigger] set_k.take(j + 1).contains(y) <==> (set_k.take(j as int).contains(y) || y == other@) by {
                            if set_k.take(j + 1).contains(y) {
                                let t = choose|t: int| 0 <= t < set_k.take(j + 1).len() && #[trigger] set_k.take(j + 1)[t] == y;
                                if t < j {
                                    assert(set_k.take(j as int)[t] == y);
                                }
                            }
                            if set_k.take(j as int).contains(y) {
                                let t = choose|t: int| 0 <= t < set_k.take(j as int).len() && #[trigger] set_k.take(j as int)[t] == y;
                                assert(set_k.take(j + 1)[t] == y);
                            }
                            if y == other@ {
                                assert(set_k.take(j + 1)[j as int] == y);
                            }
                        }
                    }
                    j += 1;
                }
                proof {
                    assert(set_k.take(set_k.len() as int) =~= set_k);
                }
            }
            k += 1;
        }
        assert(inc.take(inc.len() as int) =~= inc);
        assert(self.flags() =~= toggled(o, flag@, inc));
    }

    /// Feed one key to the open transient.
    pub fn on_key(&mut self, kp: &KeyPress) -> (r: TransientResult)
        requires
            old(self).wf(),
        ensures
            final(self).wf(),
            final(self).same_settings(&*old(self)),
            on_key_spec(&*old(self), &*final(self), *kp, r),
    {
        if kp.is_esc() || (matches!(kp.code, KeyCode::Char('g')) && kp.mods.ctrl) {
            if self.pending.as_str().is_empty() {
                return TransientResult::Cancel;
            }
            self.pending = String::new();
            return TransientResult::Consumed;
        }
        let c = match kp.code {
            KeyCode::Char(c) => c,
            _ => {
                return TransientResult::Unbound;
            },
        };
        let ghost o_flags = self.flags();
        let ghost o_args = self.args_spec();
        push_char(&mut self.pending, c);
        let pv = chars_of(self.pending.as_str());
        let has_scope = self.scope.is_some();
        let ghost groups = self.def@.groups;
        let ghost p = pv@;
        let mut found: Option<Item> = None;
        let mut prefixed = false;
        let mut gi: usize = 0;
        assert(groups.take(0) =~= Seq::<GroupView>::empty());
        while gi < self.def.groups.len()
            invariant
                groups == self.def@.groups,
                gi <= groups.len(),
                p == pv@,
                has_scope == (self.scope is Some),
                found == find_item(flat_items(groups.take(gi as int)), has_scope, p),
                prefixed == any_prefixed(flat_items(groups.take(gi as int)), has_scope, p),
            decreases self.def.groups.len() - gi,
        {
            let items = &self.def.groups[gi].items;
            let ghost base = flat_items(groups.take(gi as int));
            proof {
                assert(groups[gi as int] == self.def.groups@[gi as int]@);
                assert(base + items@.take(0) =~= base);
            }
            let mut ii: usize = 0;
            while ii < items.len()
                invariant
                    ii <= items@.len(),
                    p == pv@,
                    has_scope == (self.scope is Some),
                    found == find_item(base + items@.take(ii as int), has_scope, p),
                    prefixed == any_prefixed(base + items@.take(ii as int), has_scope, p),
                decreases items.len() - ii,
            {
                let item = items[ii];
                let kv = chars_of(item.key());
                let vis = self.item_visible(&item);
                proof {
                    assert(base + items@.take(ii + 1) =~= (base + items@.take(ii as int)).push(item));
                    lemma_find_step(base + items@.take(ii as int), item, has_scope, p);
                }
                if found.is_none() && vis && eq_chars(&kv, &pv) {
                    found = Some(item);
                }
                if vis && has_prefix(&kv, &pv) {
                    prefixed = true;
                }
                ii += 1;
            }
            proof {
                assert(items@.take(items@.len() as int) =~= items@);
                lemma_flat_step(groups, gi as int);
            }
            gi += 1;
        }
        assert(groups.take(groups.len() as int) =~= groups);
        match found {
            Some(item) => {
                self.pending = String::new();
                match item {
                    Item::Switch { flag, .. } => {
                        self.toggle(flag);
                        TransientResult::Consumed
                    },
                    Item::Arg { flag, desc, .. } => TransientResult::Prompt { flag, desc },
                    Item::Action { action, .. } => TransientResult::Invoke(action, self.args()),
                    Item::Variable { var, .. } => TransientResult::EditVariable { var },
                }
            },
            None => {
                if prefixed {
                    TransientResult::Consumed
                } else {
                    self.pending = String::new();
                    TransientResult::Unbound
                }
            },
        }
    }
}


// ---------------------------------------------------------------------------
// The menu panel
// ---------------------------------------------------------------------------

/// How a span of the menu panel is styled (the theme picks the colors).
#[derive(Debug, Clone, Copy, PartialEq, Eq, Structural)]
pub enum MenuStyle {
    /// A group title.
    Title,
    /// An item's key.
    Key,
    /// An enabled switch, a set value or the active choice.
    On,
    /// A disabled switch, an unset value or an inactive choice.
    Off,
    Plain,
}

#[derive(Debug, Clone, PartialEq, Eq)]
pub struct MenuSpan {
    pub text: String,
    pub style: MenuStyle,
}

pub type SpanView = (Seq<char>, MenuStyle);

pub open spec fn span_views(line: Seq<MenuSpan>) -> Seq<SpanView> {
    line.map_values(|s: MenuSpan| (s.text@, s.style))
}

pub open spec fn line_views(lines: Seq<Vec<MenuSpan>>) -> Seq<Seq<SpanView>> {
    lines.map_values(|l: Vec<MenuSpan>| span_views(l@))
}

/// `s` padded with spaces to `w` chars (as `format!("{s:<w}")` does).
pub open spec fn pad(s: Seq<char>, w: nat) -> Seq<char> {
    if s.len() >= w {
        s
    } else {
        s + Seq::new((w - s.len()) as nat, |i: int| ' ')
    }
}

/// The spans of the choices of a choice variable: `[a|b|fallback]`, the
/// current value (or the fallback while unset) highlighted.
pub open spec fn choice_spans(choices: Seq<Seq<char>>, fallback: Option<Seq<char>>, current: Option<Seq<char>>) -> Seq<
    SpanView,
>
    decreases choices.len(),
{
    if choices.len() == 0 {
        seq![("["@, MenuStyle::Off)]
    } else {
        let c = choices.last();
        choice_spans(choices.drop_last(), None, current) + (if choices.len() > 1 {
            seq![("|"@, MenuStyle::Off)]
        } else {
            seq![]
        }) + seq![(c, if current == Some(c) { MenuStyle::On } else { MenuStyle::Off })]
    }
}

pub open spec fn closing_spans(fallback: Option<Seq<char>>, current: Option<Seq<char>>) -> Seq<SpanView> {
    match fallback {
        Some(f) => seq![("|"@, MenuStyle::Off), (f, if current is None { MenuStyle::On } else { MenuStyle::Off }), ("]"@, MenuStyle::Off)],
        None => seq![("]"@, MenuStyle::Off)],
    }
}

pub open spec fn opt_string(o: Option<String>) -> Option<Seq<char>> {
    match o {
        Some(s) => Some(s@),
        None => None,
    }
}

/// The panel line of a visible item.
pub open spec fn item_line(st: &TransientState, item: Item) -> Seq<SpanView> {
    match item {
        Item::Switch { key, flag, desc } => seq![
            (" "@, MenuStyle::Plain),
            (pad(key@, 4), MenuStyle::Key),
            (pad(flag@, 22), if st.flags().contains(flag@) { MenuStyle::On } else { MenuStyle::Off }),
            (desc@, MenuStyle::Plain),
        ],
        Item::Arg { key, flag, desc } => seq![
            (" "@, MenuStyle::Plain),
            (pad(key@, 4), MenuStyle::Key),
            match st.value_of(flag@) {
                Some(v) => (pad(flag@ + v, 22), MenuStyle::On),
                None => (pad(flag@, 22), MenuStyle::Off),
            },
            (desc@, MenuStyle::Plain),
        ],
        Item::Action { key, desc, .. } => seq![
            (" "@, MenuStyle::Plain),
            (pad(key@, 4), MenuStyle::Key),
            (desc@, MenuStyle::Plain),
        ],
        Item::Variable { key, var } => {
            let scope = match st.scope {
                Some(s) => s@,
                None => Seq::empty(),
            };
            let head = seq![
                (" "@, MenuStyle::Plain),
                (pad(key@, 4), MenuStyle::Key),
                (pad(resolve_var_spec(var@, scope), 32), MenuStyle::Plain),
            ];
            let current = st.variable_of(var@);
            head + match entry_lookup(st.var_choices@, var@) {
                Some(choices) => choice_spans(string_views(choices@), None, current) + closing_spans(
                    opt_string(entry_lookup(st.var_fallbacks@, var@)),
                    current,
                ),
                None => match current {
                    Some(v) => seq![(v, MenuStyle::On)],
                    None => seq![("unset"@, MenuStyle::Off)],
                },
            }
        },
    }
}

/// The lines of the visible items of `items`.
pub open spec fn item_lines(st: &TransientState, items: Seq<Item>) -> Seq<Seq<SpanView>>
    decreases items.len(),
{
    if items.len() == 0 {
        Seq::empty()
    } else {
        let rest = item_lines(st, items.drop_last());
        if visible(items.last(), st.scope is Some) {
            rest.push(item_line(st, items.last()))
        } else {
            rest
        }
    }
}

/// The panel: each group with a visible item, as its title line followed
/// by the lines of its visible items.
pub open spec fn panel_spec(st: &TransientState, groups: Seq<GroupView>) -> Seq<Seq<SpanView>>
    decreases groups.len(),
{
    if groups.len() == 0 {
        Seq::empty()
    } else {
        let rest = panel_spec(st, groups.drop_last());
        let g = groups.last();
        let lines = item_lines(st, g.items);
        if lines.len() == 0 {
            rest
        } else {
            rest + seq![seq![(g.title@, MenuStyle::Title)]] + lines
        }
    }
}

fn span(text: String, style: MenuStyle) -> (r: MenuSpan)
    ensures
        r.text@ == text@,
        r.style == style,
{
    MenuSpan { text, style }
}

fn owned(s: &str) -> (r: String)
    ensures
        r@ == s@,
{
    let mut o = String::new();
    push_str(&mut o, s);
    assert(o@ =~= s@);
    o
}

/// `s` padded with spaces to `w` chars.
pub fn pad_str(s: &str, w: usize) -> (r: String)
    ensures
        r@ == pad(s@, w as nat),
{
    let v = chars_of(s);
    let mut o = owned(s);
    let mut n = v.len();
    while n < w
        invariant
            n >= v@.len(),
            n <= w || n == v@.len(),
            o@ == s@ + Seq::new((n - v@.len()) as nat, |i: int| ' '),
            v@ == s@,
        decreases w - n,
    {
        let ghost before = o@;
        push_char(&mut o, ' ');
        n += 1;
        assert(o@ =~= s@ + Seq::new((n - v@.len()) as nat, |i: int| ' '));
    }
    if v.len() >= w {
        assert(o@ =~= s@);
    } else {
        assert(n == w);
    }
    o
}

impl TransientState {
    fn choice_line(&self, out: &mut Vec<MenuSpan>, choices: &Vec<String>, current: Option<&String>)
        ensures
            span_views(final(out)@) == span_views(old(out)@) + choice_spans(
                string_views(choices@),
                None,
                match current {
                    Some(c) => Some(c@),
                    None => None,
                },
            ),
    {
        let ghost cur = match current {
            Some(c) => Some(c@),
            None => None,
        };
        let ghost base = span_views(out@);
        let ghost cs = string_views(choices@);
        out.push(span(owned("["), MenuStyle::Off));
        let mut i: usize = 0;
        assert(cs.take(0) =~= Seq::<Seq<char>>::empty());
        assert(span_views(out@) =~= base + choice_spans(cs.take(0), None, cur));
        while i < choices.len()
            invariant
                i <= choices@.len(),
                cs == string_views(choices@),
                cur == match current {
                    Some(c) => Some(c@),
                    None => None,
                },
                span_views(out@) == base + choice_spans(cs.take(i as int), None, cur),
            decreases choices.len() - i,
        {
            let ghost before = span_views(out@);
            let c = &choices[i];
            if i > 0 {
                out.push(span(owned("|"), MenuStyle::Off));
            }
            let on = match current {
                Some(v) => crate::text::eq_chars(&chars_of(v.as_str()), &chars_of(c.as_str())),
                None => false,
            };
            out.push(span(c.clone(), if on { MenuStyle::On } else { MenuStyle::Off }));
            proof {
                assert(cs.take(i + 1).drop_last() =~= cs.take(i as int));
                assert(cs.take(i + 1).last() == c@);
                assert(span_views(out@) =~= before + (if i > 0 {
                    seq![("|"@, MenuStyle::Off)]
                } else {
                    seq![]
                }) + seq![(c@, if cur == Some(c@) { MenuStyle::On } else { MenuStyle::Off })]);
            }
            i += 1;
        }
        assert(cs.take(i as int) =~= cs);
    }

    fn item_line_exec(&self, item: &Item) -> (r: Vec<MenuSpan>)
        requires
            self.wf(),
        ensures
            span_views(r@) == item_line(self, *item),
    {
        let mut out: Vec<MenuSpan> = Vec::new();
        out.push(span(owned(" "), MenuStyle::Plain));
        match item {
            Item::Switch { key, flag, desc } => {
                out.push(span(pad_str(key, 4), MenuStyle::Key));
                let on = self.is_enabled(flag);
                proof {
                    assert(self.flags().contains(flag@) == str_views(self.enabled@).contains(flag@));
                }
                out.push(span(pad_str(flag, 22), if on { MenuStyle::On } else { MenuStyle::Off }));
                out.push(span(owned(desc), MenuStyle::Plain));
                assert(span_views(out@) =~= item_line(self, *item));
            },
            Item::Arg { key, flag, desc } => {
                out.push(span(pad_str(key, 4), MenuStyle::Key));
                match map_get(&self.values, flag) {
                    Some(v) => {
                        let mut shown = owned(flag);
                        push_str(&mut shown, v.as_str());
                        out.push(span(pad_str(shown.as_str(), 22), MenuStyle::On));
                    },
                    None => {
                        out.push(span(pad_str(flag, 22), MenuStyle::Off));
                    },
                }
                out.push(span(owned(desc), MenuStyle::Plain));
                assert(span_views(out@) =~= item_line(self, *item));
            },
            Item::Action { key, desc, .. } => {
                out.push(span(pad_str(key, 4), MenuStyle::Key));
                out.push(span(owned(desc), MenuStyle::Plain));
                assert(span_views(out@) =~= item_line(self, *item));
            },
            Item::Variable { key, var } => {
                out.push(span(pad_str(key, 4), MenuStyle::Key));
                let name = match &self.scope {
                    Some(s) => resolve_var(var, s.as_str()),
                    None => {
                        let e = String::new();
                        resolve_var(var, e.as_str())
                    },
                };
                out.push(span(pad_str(name.as_str(), 32), MenuStyle::Plain));
                let ghost head = span_views(out@);
                let ghost scope = match &self.scope {
                    Some(s) => s@,
                    None => Seq::<char>::empty(),
                };
                assert(head =~= seq![
                    (" "@, MenuStyle::Plain),
                    (pad(key@, 4), MenuStyle::Key),
                    (pad(resolve_var_spec(var@, scope), 32), MenuStyle::Plain),
                ]);
                let current = map_get(&self.variables, var);
                let ghost cur = self.variable_of(var@);
                assert(cur == match current {
                    Some(c) => Some(c@),
                    None => None::<Seq<char>>,
                });
                match map_get(&self.var_choices, var) {
                    Some(choices) => {
                        self.choice_line(&mut out, choices, current);
                        match map_get(&self.var_fallbacks, var) {
                            Some(f) => {
                                out.push(span(owned("|"), MenuStyle::Off));
                                out.push(span(f.clone(), if current.is_none() { MenuStyle::On } else { MenuStyle::Off }));
                            },
                            None => {},
                        }
                        out.push(span(owned("]"), MenuStyle::Off));
                        assert(span_views(out@) =~= head + choice_spans(string_views(choices@), None, cur)
                            + closing_spans(opt_string(entry_lookup(self.var_fallbacks@, var@)), cur));
                    },
                    None => {
                        match current {
                            Some(v) => out.push(span(v.clone(), MenuStyle::On)),
                            None => out.push(span(owned("unset"), MenuStyle::Off)),
                        }
                        assert(span_views(out@) =~= head + match cur {
                            Some(v) => seq![(v, MenuStyle::On)],
                            None => seq![("unset"@, MenuStyle::Off)],
                        });
                    },
                }
                assert(span_views(out@) =~= item_line(self, *item));
            },
        }
        out
    }

    /// The lines of the bottom panel: each group that has a visible item,
    /// its title and then one line per visible item.
    pub fn render_lines(&self) -> (r: Vec<Vec<MenuSpan>>)
        requires
            self.wf(),
        ensures
            line_views(r@) == panel_spec(self, self.def@.groups),
    {
        let mut out: Vec<Vec<MenuSpan>> = Vec::new();
        let ghost groups = self.def@.groups;
        let mut gi: usize = 0;
        assert(groups.take(0) =~= Seq::<GroupView>::empty());
        assert(line_views(out@) =~= Seq::<Seq<SpanView>>::empty());
        while gi < self.def.groups.len()
            invariant
                self.wf(),
                groups == self.def@.groups,
                gi <= groups.len(),
                line_views(out@) == panel_spec(self, groups.take(gi as int)),
            decreases self.def.groups.len() - gi,
        {
            let g = &self.def.groups[gi];
            let mut lines: Vec<Vec<MenuSpan>> = Vec::new();
            let mut ii: usize = 0;
            assert(g.items@.take(0) =~= Seq::<Item>::empty());
            assert(line_views(lines@) =~= Seq::<Seq<SpanView>>::empty());
            while ii < g.items.len()
                invariant
                    self.wf(),
                    ii <= g.items@.len(),
                    line_views(lines@) == item_lines(self, g.items@.take(ii as int)),
                decreases g.items.len() - ii,
            {
                let item = g.items[ii];
                proof {
                    assert(g.items@.take(ii + 1).drop_last() =~= g.items@.take(ii as int));
                    assert(g.items@.take(ii + 1).last() == item);
                }
                if self.item_visible(&item) {
                    let ghost before = line_views(lines@);
                    let l = self.item_line_exec(&item);
                    lines.push(l);
                    assert(line_views(lines@) =~= before.push(item_line(self, item)));
                }
                ii += 1;
            }
            assert(g.items@.take(ii as int) =~= g.items@);
            proof {
                assert(groups[gi as int] == g@);
                assert(groups.take(gi + 1).drop_last() =~= groups.take(gi as int));
                assert(groups.take(gi + 1).last() == g@);
            }
            if lines.len() > 0 {
                let ghost before = line_views(out@);
                let mut title: Vec<MenuSpan> = Vec::new();
                title.push(span(owned(g.title), MenuStyle::Title));
                assert(span_views(title@) =~= seq![(g.title@, MenuStyle::Title)]);
                out.push(title);
                let ghost mid = line_views(out@);
                assert(mid =~= before + seq![seq![(g.title@, MenuStyle::Title)]]);
                let ghost lv = line_views(lines@);
                let ghost ol = out@;
                let ghost ll = lines@;
                out.append(&mut lines);
                assert(out@ == ol + ll);
                assert(line_views(out@) =~= mid + lv);
            }
            gi += 1;
        }
        assert(groups.take(gi as int) =~= groups);
        out
    }
}

} // verus!
