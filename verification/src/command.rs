//! Commands are data, not closures: keymaps bind keys to `Command` values,
//! config remaps by name, and the help UI enumerates `commands()`.

use vstd::prelude::*;

use crate::text::{chars_of, eq_chars};

verus! {

#[derive(Debug, Clone, Copy, PartialEq, Eq, Hash, Structural)]
pub enum Command {
    Quit,
    Refresh,
    Nav(NavCmd),
    ToggleSection,
    Stage,
    Unstage,
    StageAll,
    UnstageAll,
    Discard,
    Visit,
    Search,
    /// Jump to the next/previous match of the active search.
    SearchNext,
    SearchPrev,
    Transient(Menu),
    /// Rebase-todo editing (only bound in the rebase-todo buffer).
    Todo(TodoCmd),
    Help,
    ProcessLog,
    /// Open the references buffer (branches, remotes, tags).
    ShowRefs,
    /// Copy the value at point (commit/ref/file/stash) to the clipboard.
    Copy,
    /// Copy the revision the current buffer is about to the clipboard.
    CopyRevision,
}

/// Rebase-todo buffer commands. Grouped like `NavCmd` so `dispatch`
/// forwards them wholesale to the todo editor instead of growing one arm
/// per action.
#[derive(Debug, Clone, Copy, PartialEq, Eq, Hash, Structural)]
pub enum TodoCmd {
    Pick,
    Reword,
    Edit,
    Squash,
    Fixup,
    Drop,
    MoveUp,
    MoveDown,
    Confirm,
    Abort,
}

/// Pure cursor motions. Grouped so `dispatch` forwards them wholesale to
/// the pane instead of growing one arm per motion.
#[derive(Debug, Clone, Copy, PartialEq, Eq, Hash, Structural)]
pub enum NavCmd {
    MoveDown,
    MoveUp,
    HalfPageDown,
    HalfPageUp,
    PageDown,
    PageUp,
    GotoTop,
    GotoBottom,
    NextSection,
    PrevSection,
    ParentSection,
}

/// Transient menus. `ui::transient::menu_def` maps each to its definition,
/// so opening a new menu never adds a `dispatch` arm.
#[derive(Debug, Clone, Copy, PartialEq, Eq, Hash, Structural)]
pub enum Menu {
    Commit,
    Branch,
    Merge,
    Rebase,
    CherryPick,
    Revert,
    Reset,
    Stash,
    Tag,
    Remote,
    Push,
    Pull,
    Fetch,
    Log,
    Submodule,
    Worktree,
}

#[derive(Debug, Clone, Copy)]
pub struct CommandInfo {
    pub cmd: Command,
    pub name: &'static str,
    pub desc: &'static str,
}

/// The name a command is bound by in the config file and listed by in help.
pub open spec fn command_name(c: Command) -> Seq<char> {
    match c {
        Command::Nav(n) => nav_name(n),
        Command::Todo(t) => todo_name(t),
        Command::Transient(m) => menu_name(m),
        Command::Quit => "quit"@,
        Command::Refresh => "refresh"@,
        Command::ToggleSection => "toggle-section"@,
        Command::Stage => "stage"@,
        Command::Unstage => "unstage"@,
        Command::StageAll => "stage-all"@,
        Command::UnstageAll => "unstage-all"@,
        Command::Discard => "discard"@,
        Command::Visit => "visit"@,
        Command::Search => "search"@,
        Command::SearchNext => "search-next"@,
        Command::SearchPrev => "search-prev"@,
        Command::Help => "help"@,
        Command::ProcessLog => "process-log"@,
        Command::ShowRefs => "show-refs"@,
        Command::Copy => "copy"@,
        Command::CopyRevision => "copy-revision"@,
    }
}

/// The description shown in help.
pub open spec fn command_desc(c: Command) -> Seq<char> {
    match c {
        Command::Nav(n) => nav_desc(n),
        Command::Todo(t) => todo_desc(t),
        Command::Transient(m) => menu_desc(m),
        Command::Quit => "Close current buffer (quit if last)"@,
        Command::Refresh => "Refresh the current buffer"@,
        Command::ToggleSection => "Collapse/expand section at point"@,
        Command::Stage => "Stage the thing at point (file/hunk/line)"@,
        Command::Unstage => "Unstage the thing at point"@,
        Command::StageAll => "Stage all tracked changes"@,
        Command::UnstageAll => "Unstage all staged changes"@,
        Command::Discard => "Discard the change at point"@,
        Command::Visit => "Show the thing at point (commit/stash)"@,
        Command::Search => "Incremental search in the buffer"@,
        Command::SearchNext => "Jump to the next search match"@,
        Command::SearchPrev => "Jump to the previous search match"@,
        Command::Help => "Show key bindings"@,
        Command::ProcessLog => "Show the git process log"@,
        Command::ShowRefs => "Show branches, remotes and tags"@,
        Command::Copy => "Copy the value at point to the clipboard"@,
        Command::CopyRevision => "Copy the buffer's revision to the clipboard"@,
    }
}

pub open spec fn nav_name(c: NavCmd) -> Seq<char> {
    match c {
        NavCmd::MoveDown => "move-down"@,
        NavCmd::MoveUp => "move-up"@,
        NavCmd::HalfPageDown => "half-page-down"@,
        NavCmd::HalfPageUp => "half-page-up"@,
        NavCmd::PageDown => "page-down"@,
        NavCmd::PageUp => "page-up"@,
        NavCmd::GotoTop => "goto-top"@,
        NavCmd::GotoBottom => "goto-bottom"@,
        NavCmd::NextSection => "next-section"@,
        NavCmd::PrevSection => "prev-section"@,
        NavCmd::ParentSection => "parent-section"@,
    }
}

pub open spec fn todo_name(c: TodoCmd) -> Seq<char> {
    match c {
        TodoCmd::Pick => "todo-pick"@,
        TodoCmd::Reword => "todo-reword"@,
        TodoCmd::Edit => "todo-edit"@,
        TodoCmd::Squash => "todo-squash"@,
        TodoCmd::Fixup => "todo-fixup"@,
        TodoCmd::Drop => "todo-drop"@,
        TodoCmd::MoveUp => "todo-move-up"@,
        TodoCmd::MoveDown => "todo-move-down"@,
        TodoCmd::Confirm => "todo-confirm"@,
        TodoCmd::Abort => "todo-abort"@,
    }
}

pub open spec fn menu_name(c: Menu) -> Seq<char> {
    match c {
        Menu::Commit => "commit"@,
        Menu::Branch => "branch"@,
        Menu::Merge => "merge"@,
        Menu::Rebase => "rebase"@,
        Menu::CherryPick => "cherry-pick"@,
        Menu::Revert => "revert"@,
        Menu::Reset => "reset"@,
        Menu::Stash => "stash"@,
        Menu::Tag => "tag"@,
        Menu::Remote => "remote"@,
        Menu::Push => "push"@,
        Menu::Pull => "pull"@,
        Menu::Fetch => "fetch"@,
        Menu::Log => "log"@,
        Menu::Submodule => "submodule"@,
        Menu::Worktree => "worktree"@,
    }
}

pub open spec fn nav_desc(c: NavCmd) -> Seq<char> {
    match c {
        NavCmd::MoveDown => "Move cursor down"@,
        NavCmd::MoveUp => "Move cursor up"@,
        NavCmd::HalfPageDown => "Scroll half a page down"@,
        NavCmd::HalfPageUp => "Scroll half a page up"@,
        NavCmd::PageDown => "Scroll a full page down"@,
        NavCmd::PageUp => "Scroll a full page up"@,
        NavCmd::GotoTop => "Go to the first line"@,
        NavCmd::GotoBottom => "Go to the last line"@,
        NavCmd::NextSection => "Jump to next section heading"@,
        NavCmd::PrevSection => "Jump to previous section heading"@,
        NavCmd::ParentSection => "Jump to parent section"@,
    }
}

pub open spec fn todo_desc(c: TodoCmd) -> Seq<char> {
    match c {
        TodoCmd::Pick => "Rebase todo: use this commit"@,
        TodoCmd::Reword => "Rebase todo: use commit, edit its message"@,
        TodoCmd::Edit => "Rebase todo: use commit, stop for amending"@,
        TodoCmd::Squash => "Rebase todo: meld into previous commit"@,
        TodoCmd::Fixup => "Rebase todo: meld into previous, discard message"@,
        TodoCmd::Drop => "Rebase todo: remove this commit"@,
        TodoCmd::MoveUp => "Rebase todo: move commit up"@,
        TodoCmd::MoveDown => "Rebase todo: move commit down"@,
        TodoCmd::Confirm => "Rebase todo: confirm and run the rebase"@,
        TodoCmd::Abort => "Rebase todo: close without rebasing"@,
    }
}

pub open spec fn menu_desc(c: Menu) -> Seq<char> {
    match c {
        Menu::Commit => "Open the commit menu"@,
        Menu::Branch => "Open the branch menu"@,
        Menu::Merge => "Open the merge menu"@,
        Menu::Rebase => "Open the rebase menu"@,
        Menu::CherryPick => "Open the cherry-pick menu"@,
        Menu::Revert => "Open the revert menu"@,
        Menu::Reset => "Open the reset menu"@,
        Menu::Stash => "Open the stash menu"@,
        Menu::Tag => "Open the tag menu"@,
        Menu::Remote => "Open the remote menu"@,
        Menu::Push => "Open the push menu"@,
        Menu::Pull => "Open the pull menu"@,
        Menu::Fetch => "Open the fetch menu"@,
        Menu::Log => "Open the log menu"@,
        Menu::Submodule => "Open the submodule menu"@,
        Menu::Worktree => "Open the worktree menu"@,
    }
}

/// The registry order of the commands (the help buffer's order).
pub open spec fn command_order() -> Seq<Command> {
    seq![
        Command::Quit,
        Command::Refresh,
        Command::Nav(NavCmd::MoveDown),
        Command::Nav(NavCmd::MoveUp),
        Command::Nav(NavCmd::HalfPageDown),
        Command::Nav(NavCmd::HalfPageUp),
        Command::Nav(NavCmd::PageDown),
        Command::Nav(NavCmd::PageUp),
        Command::Nav(NavCmd::GotoTop),
        Command::Nav(NavCmd::GotoBottom),
        Command::Nav(NavCmd::NextSection),
        Command::Nav(NavCmd::PrevSection),
        Command::Nav(NavCmd::ParentSection),
        Command::ToggleSection,
        Command::Stage,
        Command::Unstage,
        Command::StageAll,
        Command::UnstageAll,
        Command::Discard,
        Command::Visit,
        Command::Search,
        Command::SearchNext,
        Command::SearchPrev,
        Command::Transient(Menu::Commit),
        Command::Transient(Menu::Branch),
        Command::Transient(Menu::Merge),
        Command::Transient(Menu::Rebase),
        Command::Transient(Menu::CherryPick),
        Command::Transient(Menu::Revert),
        Command::Transient(Menu::Reset),
        Command::Transient(Menu::Stash),
        Command::Transient(Menu::Tag),
        Command::Transient(Menu::Remote),
        Command::Transient(Menu::Push),
        Command::Transient(Menu::Pull),
        Command::Transient(Menu::Fetch),
        Command::Transient(Menu::Log),
        Command::Transient(Menu::Submodule),
        Command::Transient(Menu::Worktree),
        Command::Todo(TodoCmd::Pick),
        Command::Todo(TodoCmd::Reword),
        Command::Todo(TodoCmd::Edit),
        Command::Todo(TodoCmd::Squash),
        Command::Todo(TodoCmd::Fixup),
        Command::Todo(TodoCmd::Drop),
        Command::Todo(TodoCmd::MoveUp),
        Command::Todo(TodoCmd::MoveDown),
        Command::Todo(TodoCmd::Confirm),
        Command::Todo(TodoCmd::Abort),
        Command::Help,
        Command::ProcessLog,
        Command::ShowRefs,
        Command::Copy,
        Command::CopyRevision,
    ]
}

fn ci(cmd: Command, name: &'static str, desc: &'static str) -> (r: CommandInfo)
    ensures
        r.cmd == cmd,
        r.name@ == name@,
        r.desc@ == desc@,
{
    CommandInfo { cmd, name, desc }
}

fn info_nav(x: NavCmd) -> (r: CommandInfo)
    ensures
        r.cmd == Command::Nav(x),
        r.name@ == command_name(Command::Nav(x)),
        r.desc@ == command_desc(Command::Nav(x)),
{
    match x {
        NavCmd::MoveDown => ci(Command::Nav(NavCmd::MoveDown), "move-down", "Move cursor down"),
        NavCmd::MoveUp => ci(Command::Nav(NavCmd::MoveUp), "move-up", "Move cursor up"),
        NavCmd::HalfPageDown => ci(Command::Nav(NavCmd::HalfPageDown), "half-page-down", "Scroll half a page down"),
        NavCmd::HalfPageUp => ci(Command::Nav(NavCmd::HalfPageUp), "half-page-up", "Scroll half a page up"),
        NavCmd::PageDown => ci(Command::Nav(NavCmd::PageDown), "page-down", "Scroll a full page down"),
        NavCmd::PageUp => ci(Command::Nav(NavCmd::PageUp), "page-up", "Scroll a full page up"),
        NavCmd::GotoTop => ci(Command::Nav(NavCmd::GotoTop), "goto-top", "Go to the first line"),
        NavCmd::GotoBottom => ci(Command::Nav(NavCmd::GotoBottom), "goto-bottom", "Go to the last line"),
        NavCmd::NextSection => ci(Command::Nav(NavCmd::NextSection), "next-section", "Jump to next section heading"),
        NavCmd::PrevSection => ci(Command::Nav(NavCmd::PrevSection), "prev-section", "Jump to previous section heading"),
        NavCmd::ParentSection => ci(Command::Nav(NavCmd::ParentSection), "parent-section", "Jump to parent section"),
    }
}

fn info_todo(x: TodoCmd) -> (r: CommandInfo)
    ensures
        r.cmd == Command::Todo(x),
        r.name@ == command_name(Command::Todo(x)),
        r.desc@ == command_desc(Command::Todo(x)),
{
    match x {
        TodoCmd::Pick => ci(Command::Todo(TodoCmd::Pick), "todo-pick", "Rebase todo: use this commit"),
        TodoCmd::Reword => ci(Command::Todo(TodoCmd::Reword), "todo-reword", "Rebase todo: use commit, edit its message"),
        TodoCmd::Edit => ci(Command::Todo(TodoCmd::Edit), "todo-edit", "Rebase todo: use commit, stop for amending"),
        TodoCmd::Squash => ci(Command::Todo(TodoCmd::Squash), "todo-squash", "Rebase todo: meld into previous commit"),
        TodoCmd::Fixup => ci(Command::Todo(TodoCmd::Fixup), "todo-fixup", "Rebase todo: meld into previous, discard message"),
        TodoCmd::Drop => ci(Command::Todo(TodoCmd::Drop), "todo-drop", "Rebase todo: remove this commit"),
        TodoCmd::MoveUp => ci(Command::Todo(TodoCmd::MoveUp), "todo-move-up", "Rebase todo: move commit up"),
        TodoCmd::MoveDown => ci(Command::Todo(TodoCmd::MoveDown), "todo-move-down", "Rebase todo: move commit down"),
        TodoCmd::Confirm => ci(Command::Todo(TodoCmd::Confirm), "todo-confirm", "Rebase todo: confirm and run the rebase"),
        TodoCmd::Abort => ci(Command::Todo(TodoCmd::Abort), "todo-abort", "Rebase todo: close without rebasing"),
    }
}

fn info_menu(x: Menu) -> (r: CommandInfo)
    ensures
        r.cmd == Command::Transient(x),
        r.name@ == command_name(Command::Transient(x)),
        r.desc@ == command_desc(Command::Transient(x)),
{
    match x {
        Menu::Commit => ci(Command::Transient(Menu::Commit), "commit", "Open the commit menu"),
        Menu::Branch => ci(Command::Transient(Menu::Branch), "branch", "Open the branch menu"),
        Menu::Merge => ci(Command::Transient(Menu::Merge), "merge", "Open the merge menu"),
        Menu::Rebase => ci(Command::Transient(Menu::Rebase), "rebase", "Open the rebase menu"),
        Menu::CherryPick => ci(Command::Transient(Menu::CherryPick), "cherry-pick", "Open the cherry-pick menu"),
        Menu::Revert => ci(Command::Transient(Menu::Revert), "revert", "Open the revert menu"),
        Menu::Reset => ci(Command::Transient(Menu::Reset), "reset", "Open the reset menu"),
        Menu::Stash => ci(Command::Transient(Menu::Stash), "stash", "Open the stash menu"),
        Menu::Tag => ci(Command::Transient(Menu::Tag), "tag", "Open the tag menu"),
        Menu::Remote => ci(Command::Transient(Menu::Remote), "remote", "Open the remote menu"),
        Menu::Push => ci(Command::Transient(Menu::Push), "push", "Open the push menu"),
        Menu::Pull => ci(Command::Transient(Menu::Pull), "pull", "Open the pull menu"),
        Menu::Fetch => ci(Command::Transient(Menu::Fetch), "fetch", "Open the fetch menu"),
        Menu::Log => ci(Command::Transient(Menu::Log), "log", "Open the log menu"),
        Menu::Submodule => ci(Command::Transient(Menu::Submodule), "submodule", "Open the submodule menu"),
        Menu::Worktree => ci(Command::Transient(Menu::Worktree), "worktree", "Open the worktree menu"),
    }
}

/// The registry entry of a command (every command has one).
pub fn info(cmd: Command) -> (r: CommandInfo)
    ensures
        r.cmd == cmd,
        r.name@ == command_name(cmd),
        r.desc@ == command_desc(cmd),
{
    match cmd {
        Command::Nav(n) => info_nav(n),
        Command::Todo(t) => info_todo(t),
        Command::Transient(m) => info_menu(m),
        Command::Quit => ci(Command::Quit, "quit", "Close current buffer (quit if last)"),
        Command::Refresh => ci(Command::Refresh, "refresh", "Refresh the current buffer"),
        Command::ToggleSection => ci(Command::ToggleSection, "toggle-section", "Collapse/expand section at point"),
        Command::Stage => ci(Command::Stage, "stage", "Stage the thing at point (file/hunk/line)"),
        Command::Unstage => ci(Command::Unstage, "unstage", "Unstage the thing at point"),
        Command::StageAll => ci(Command::StageAll, "stage-all", "Stage all tracked changes"),
        Command::UnstageAll => ci(Command::UnstageAll, "unstage-all", "Unstage all staged changes"),
        Command::Discard => ci(Command::Discard, "discard", "Discard the change at point"),
        Command::Visit => ci(Command::Visit, "visit", "Show the thing at point (commit/stash)"),
        Command::Search => ci(Command::Search, "search", "Incremental search in the buffer"),
        Command::SearchNext => ci(Command::SearchNext, "search-next", "Jump to the next search match"),
        Command::SearchPrev => ci(Command::SearchPrev, "search-prev", "Jump to the previous search match"),
        Command::Help => ci(Command::Help, "help", "Show key bindings"),
        Command::ProcessLog => ci(Command::ProcessLog, "process-log", "Show the git process log"),
        Command::ShowRefs => ci(Command::ShowRefs, "show-refs", "Show branches, remotes and tags"),
        Command::Copy => ci(Command::Copy, "copy", "Copy the value at point to the clipboard"),
        Command::CopyRevision => ci(Command::CopyRevision, "copy-revision", "Copy the buffer's revision to the clipboard"),
    }
}

/// Every registered command with its name and description, in registry
/// order.
pub fn commands() -> (v: Vec<CommandInfo>)
    ensures
        v@.len() == command_order().len(),
        forall|i: int| 0 <= i < v@.len() ==> {
            &&& (#[trigger] v@[i]).cmd == command_order()[i]
            &&& v@[i].name@ == command_name(command_order()[i])
            &&& v@[i].desc@ == command_desc(command_order()[i])
        },
{
    let mut v: Vec<CommandInfo> = Vec::new();
    v.push(info(Command::Quit));
    v.push(info(Command::Refresh));
    v.push(info(Command::Nav(NavCmd::MoveDown)));
    v.push(info(Command::Nav(NavCmd::MoveUp)));
    v.push(info(Command::Nav(NavCmd::HalfPageDown)));
    v.push(info(Command::Nav(NavCmd::HalfPageUp)));
    v.push(info(Command::Nav(NavCmd::PageDown)));
    v.push(info(Command::Nav(NavCmd::PageUp)));
    v.push(info(Command::Nav(NavCmd::GotoTop)));
    v.push(info(Command::Nav(NavCmd::GotoBottom)));
    v.push(info(Command::Nav(NavCmd::NextSection)));
    v.push(info(Command::Nav(NavCmd::PrevSection)));
    v.push(info(Command::Nav(NavCmd::ParentSection)));
    v.push(info(Command::ToggleSection));
    v.push(info(Command::Stage));
    v.push(info(Command::Unstage));
    v.push(info(Command::StageAll));
    v.push(info(Command::UnstageAll));
    v.push(info(Command::Discard));
    v.push(info(Command::Visit));
    v.push(info(Command::Search));
    v.push(info(Command::SearchNext));
    v.push(info(Command::SearchPrev));
    v.push(info(Command::Transient(Menu::Commit)));
    v.push(info(Command::Transient(Menu::Branch)));
    v.push(info(Command::Transient(Menu::Merge)));
    v.push(info(Command::Transient(Menu::Rebase)));
    v.push(info(Command::Transient(Menu::CherryPick)));
    v.push(info(Command::Transient(Menu::Revert)));
    v.push(info(Command::Transient(Menu::Reset)));
    v.push(info(Command::Transient(Menu::Stash)));
    v.push(info(Command::Transient(Menu::Tag)));
    v.push(info(Command::Transient(Menu::Remote)));
    v.push(info(Command::Transient(Menu::Push)));
    v.push(info(Command::Transient(Menu::Pull)));
    v.push(info(Command::Transient(Menu::Fetch)));
    v.push(info(Command::Transient(Menu::Log)));
    v.push(info(Command::Transient(Menu::Submodule)));
    v.push(info(Command::Transient(Menu::Worktree)));
    v.push(info(Command::Todo(TodoCmd::Pick)));
    v.push(info(Command::Todo(TodoCmd::Reword)));
    v.push(info(Command::Todo(TodoCmd::Edit)));
    v.push(info(Command::Todo(TodoCmd::Squash)));
    v.push(info(Command::Todo(TodoCmd::Fixup)));
    v.push(info(Command::Todo(TodoCmd::Drop)));
    v.push(info(Command::Todo(TodoCmd::MoveUp)));
    v.push(info(Command::Todo(TodoCmd::MoveDown)));
    v.push(info(Command::Todo(TodoCmd::Confirm)));
    v.push(info(Command::Todo(TodoCmd::Abort)));
    v.push(info(Command::Help));
    v.push(info(Command::ProcessLog));
    v.push(info(Command::ShowRefs));
    v.push(info(Command::Copy));
    v.push(info(Command::CopyRevision));
    v
}

/// The first registered command (in registry order) with the given name.
pub open spec fn by_name_spec(name: Seq<char>) -> Option<Command> {
    first_named(command_order(), name)
}

pub open spec fn first_named(cs: Seq<Command>, name: Seq<char>) -> Option<Command>
    decreases cs.len(),
{
    if cs.len() == 0 {
        None
    } else {
        match first_named(cs.drop_last(), name) {
            Some(c) => Some(c),
            None => if command_name(cs.last()) == name {
                Some(cs.last())
            } else {
                None
            },
        }
    }
}

/// A number that tells the command names apart: their length and their
/// first, last and second-to-last characters.
pub open spec fn name_sig(s: Seq<char>) -> int {
    s.len() * 1000000000 + (s[0] as int) * 1000000 + (s[s.len() - 1] as int) * 1000 + (s[s.len() - 2] as int)
}

/// The command whose name has the signature `k`.
pub open spec fn command_of_sig(k: int) -> Option<Command> {
    if k == 4113116105 {
        Some(Command::Quit)
    } else if k == 7114104115 {
        Some(Command::Refresh)
    } else if k == 9109110119 {
        Some(Command::Nav(NavCmd::MoveDown))
    } else if k == 7109112117 {
        Some(Command::Nav(NavCmd::MoveUp))
    } else if k == 14104110119 {
        Some(Command::Nav(NavCmd::HalfPageDown))
    } else if k == 12104112117 {
        Some(Command::Nav(NavCmd::HalfPageUp))
    } else if k == 9112110119 {
        Some(Command::Nav(NavCmd::PageDown))
    } else if k == 7112112117 {
        Some(Command::Nav(NavCmd::PageUp))
    } else if k == 8103112111 {
        Some(Command::Nav(NavCmd::GotoTop))
    } else if k == 11103109111 {
        Some(Command::Nav(NavCmd::GotoBottom))
    } else if k == 12110110111 {
        Some(Command::Nav(NavCmd::NextSection))
    } else if k == 12112110111 {
        Some(Command::Nav(NavCmd::PrevSection))
    } else if k == 14112110111 {
        Some(Command::Nav(NavCmd::ParentSection))
    } else if k == 14116110111 {
        Some(Command::ToggleSection)
    } else if k == 5115101103 {
        Some(Command::Stage)
    } else if k == 7117101103 {
        Some(Command::Unstage)
    } else if k == 9115108108 {
        Some(Command::StageAll)
    } else if k == 11117108108 {
        Some(Command::UnstageAll)
    } else if k == 7100100114 {
        Some(Command::Discard)
    } else if k == 5118116105 {
        Some(Command::Visit)
    } else if k == 6115104099 {
        Some(Command::Search)
    } else if k == 11115116120 {
        Some(Command::SearchNext)
    } else if k == 11115118101 {
        Some(Command::SearchPrev)
    } else if k == 6099116105 {
        Some(Command::Transient(Menu::Commit))
    } else if k == 6098104099 {
        Some(Command::Transient(Menu::Branch))
    } else if k == 5109101103 {
        Some(Command::Transient(Menu::Merge))
    } else if k == 6114101115 {
        Some(Command::Transient(Menu::Rebase))
    } else if k == 11099107099 {
        Some(Command::Transient(Menu::CherryPick))
    } else if k == 6114116114 {
        Some(Command::Transient(Menu::Revert))
    } else if k == 5114116101 {
        Some(Command::Transient(Menu::Reset))
    } else if k == 5115104115 {
        Some(Command::Transient(Menu::Stash))
    } else if k == 3116103097 {
        Some(Command::Transient(Menu::Tag))
    } else if k == 6114101116 {
        Some(Command::Transient(Menu::Remote))
    } else if k == 4112104115 {
        Some(Command::Transient(Menu::Push))
    } else if k == 4112108108 {
        Some(Command::Transient(Menu::Pull))
    } else if k == 5102104099 {
        Some(Command::Transient(Menu::Fetch))
    } else if k == 3108103111 {
        Some(Command::Transient(Menu::Log))
    } else if k == 9115101108 {
        Some(Command::Transient(Menu::Submodule))
    } else if k == 8119101101 {
        Some(Command::Transient(Menu::Worktree))
    } else if k == 9116107099 {
        Some(Command::Todo(TodoCmd::Pick))
    } else if k == 11116100114 {
        Some(Command::Todo(TodoCmd::Reword))
    } else if k == 9116116105 {
        Some(Command::Todo(TodoCmd::Edit))
    } else if k == 11116104115 {
        Some(Command::Todo(TodoCmd::Squash))
    } else if k == 10116112117 {
        Some(Command::Todo(TodoCmd::Fixup))
    } else if k == 9116112111 {
        Some(Command::Todo(TodoCmd::Drop))
    } else if k == 12116112117 {
        Some(Command::Todo(TodoCmd::MoveUp))
    } else if k == 14116110119 {
        Some(Command::Todo(TodoCmd::MoveDown))
    } else if k == 12116109114 {
        Some(Command::Todo(TodoCmd::Confirm))
    } else if k == 10116116114 {
        Some(Command::Todo(TodoCmd::Abort))
    } else if k == 4104112108 {
        Some(Command::Help)
    } else if k == 11112103111 {
        Some(Command::ProcessLog)
    } else if k == 9115115102 {
        Some(Command::ShowRefs)
    } else if k == 4099121112 {
        Some(Command::Copy)
    } else if k == 13099110111 {
        Some(Command::CopyRevision)
    } else {
        None
    }
}

proof fn lemma_name_sig(c: Command)
    ensures
        command_of_sig(name_sig(command_name(c))) == Some(c),
        command_order().contains(c),
{
    reveal_strlit("branch");
    reveal_strlit("cherry-pick");
    reveal_strlit("commit");
    reveal_strlit("copy");
    reveal_strlit("copy-revision");
    reveal_strlit("discard");
    reveal_strlit("fetch");
    reveal_strlit("goto-bottom");
    reveal_strlit("goto-top");
    reveal_strlit("half-page-down");
    reveal_strlit("half-page-up");
    reveal_strlit("help");
    reveal_strlit("log");
    reveal_strlit("merge");
    reveal_strlit("move-down");
    reveal_strlit("move-up");
    reveal_strlit("next-section");
    reveal_strlit("page-down");
    reveal_strlit("page-up");
    reveal_strlit("parent-section");
    reveal_strlit("prev-section");
    reveal_strlit("process-log");
    reveal_strlit("pull");
    reveal_strlit("push");
    reveal_strlit("quit");
    reveal_strlit("rebase");
    reveal_strlit("refresh");
    reveal_strlit("remote");
    reveal_strlit("reset");
    reveal_strlit("revert");
    reveal_strlit("search");
    reveal_strlit("search-next");
    reveal_strlit("search-prev");
    reveal_strlit("show-refs");
    reveal_strlit("stage");
    reveal_strlit("stage-all");
    reveal_strlit("stash");
    reveal_strlit("submodule");
    reveal_strlit("tag");
    reveal_strlit("todo-abort");
    reveal_strlit("todo-confirm");
    reveal_strlit("todo-drop");
    reveal_strlit("todo-edit");
    reveal_strlit("todo-fixup");
    reveal_strlit("todo-move-down");
    reveal_strlit("todo-move-up");
    reveal_strlit("todo-pick");
    reveal_strlit("todo-reword");
    reveal_strlit("todo-squash");
    reveal_strlit("toggle-section");
    reveal_strlit("unstage");
    reveal_strlit("unstage-all");
    reveal_strlit("visit");
    reveal_strlit("worktree");
    let o = command_order();
    match c {
        Command::Quit => { assert(o[0] == c); },
        Command::Refresh => { assert(o[1] == c); },
        Command::Nav(NavCmd::MoveDown) => { assert(o[2] == c); },
        Command::Nav(NavCmd::MoveUp) => { assert(o[3] == c); },
        Command::Nav(NavCmd::HalfPageDown) => { assert(o[4] == c); },
        Command::Nav(NavCmd::HalfPageUp) => { assert(o[5] == c); },
        Command::Nav(NavCmd::PageDown) => { assert(o[6] == c); },
        Command::Nav(NavCmd::PageUp) => { assert(o[7] == c); },
        Command::Nav(NavCmd::GotoTop) => { assert(o[8] == c); },
        Command::Nav(NavCmd::GotoBottom) => { assert(o[9] == c); },
        Command::Nav(NavCmd::NextSection) => { assert(o[10] == c); },
        Command::Nav(NavCmd::PrevSection) => { assert(o[11] == c); },
        Command::Nav(NavCmd::ParentSection) => { assert(o[12] == c); },
        Command::ToggleSection => { assert(o[13] == c); },
        Command::Stage => { assert(o[14] == c); },
        Command::Unstage => { assert(o[15] == c); },
        Command::StageAll => { assert(o[16] == c); },
        Command::UnstageAll => { assert(o[17] == c); },
        Command::Discard => { assert(o[18] == c); },
        Command::Visit => { assert(o[19] == c); },
        Command::Search => { assert(o[20] == c); },
        Command::SearchNext => { assert(o[21] == c); },
        Command::SearchPrev => { assert(o[22] == c); },
        Command::Transient(Menu::Commit) => { assert(o[23] == c); },
        Command::Transient(Menu::Branch) => { assert(o[24] == c); },
        Command::Transient(Menu::Merge) => { assert(o[25] == c); },
        Command::Transient(Menu::Rebase) => { assert(o[26] == c); },
        Command::Transient(Menu::CherryPick) => { assert(o[27] == c); },
        Command::Transient(Menu::Revert) => { assert(o[28] == c); },
        Command::Transient(Menu::Reset) => { assert(o[29] == c); },
        Command::Transient(Menu::Stash) => { assert(o[30] == c); },
        Command::Transient(Menu::Tag) => { assert(o[31] == c); },
        Command::Transient(Menu::Remote) => { assert(o[32] == c); },
        Command::Transient(Menu::Push) => { assert(o[33] == c); },
        Command::Transient(Menu::Pull) => { assert(o[34] == c); },
        Command::Transient(Menu::Fetch) => { assert(o[35] == c); },
        Command::Transient(Menu::Log) => { assert(o[36] == c); },
        Command::Transient(Menu::Submodule) => { assert(o[37] == c); },
        Command::Transient(Menu::Worktree) => { assert(o[38] == c); },
        Command::Todo(TodoCmd::Pick) => { assert(o[39] == c); },
        Command::Todo(TodoCmd::Reword) => { assert(o[40] == c); },
        Command::Todo(TodoCmd::Edit) => { assert(o[41] == c); },
        Command::Todo(TodoCmd::Squash) => { assert(o[42] == c); },
        Command::Todo(TodoCmd::Fixup) => { assert(o[43] == c); },
        Command::Todo(TodoCmd::Drop) => { assert(o[44] == c); },
        Command::Todo(TodoCmd::MoveUp) => { assert(o[45] == c); },
        Command::Todo(TodoCmd::MoveDown) => { assert(o[46] == c); },
        Command::Todo(TodoCmd::Confirm) => { assert(o[47] == c); },
        Command::Todo(TodoCmd::Abort) => { assert(o[48] == c); },
        Command::Help => { assert(o[49] == c); },
        Command::ProcessLog => { assert(o[50] == c); },
        Command::ShowRefs => { assert(o[51] == c); },
        Command::Copy => { assert(o[52] == c); },
        Command::CopyRevision => { assert(o[53] == c); },
    }
}

proof fn lemma_first_named(cs: Seq<Command>, n: Seq<char>, c: Command)
    ensures
        first_named(cs, n) matches Some(x) ==> command_name(x) == n,
        cs.contains(c) && command_name(c) == n ==> first_named(cs, n) is Some,
    decreases cs.len(),
{
    if cs.len() > 0 {
        lemma_first_named(cs.drop_last(), n, c);
        if cs.contains(c) && cs.last() != c {
            let i = choose|i: int| 0 <= i < cs.len() && cs[i] == c;
            assert(cs.drop_last()[i] == c);
        }
    }
}

/// Command names are unique: looking up a command's own name finds that
/// command, a name that some command has finds that command, and a name
/// that no command has finds nothing.
pub proof fn law_command_names_unique(c: Command, n: Seq<char>)
    ensures
        by_name_spec(command_name(c)) == Some(c),
        by_name_spec(n) matches Some(d) ==> command_name(d) == n,
        by_name_spec(n) is None ==> command_name(c) != n,
{
    lemma_name_sig(c);
    lemma_first_named(command_order(), command_name(c), c);
    lemma_first_named(command_order(), n, c);
    if let Some(d) = by_name_spec(command_name(c)) {
        lemma_name_sig(d);
    }
}

/// The command a config file names.
pub fn by_name(name: &str) -> (r: Option<Command>)
    ensures
        r == by_name_spec(name@),
{
    let all = commands();
    let want = chars_of(name);
    let mut i: usize = 0;
    assert(command_order().subrange(0, 0) =~= Seq::<Command>::empty());
    while i < all.len()
        invariant
            i <= all.len(),
            want@ == name@,
            all@.len() == command_order().len(),
            forall|k: int| 0 <= k < all@.len() ==> {
                &&& (#[trigger] all@[k]).cmd == command_order()[k]
                &&& all@[k].name@ == command_name(command_order()[k])
            },
            first_named(command_order().subrange(0, i as int), name@) is None,
        decreases all.len() - i,
    {
        let ghost pre = command_order().subrange(0, i as int);
        assert(command_order().subrange(0, i + 1).drop_last() =~= pre);
        assert(command_order().subrange(0, i + 1).last() == command_order()[i as int]);
        let n = chars_of(all[i].name);
        if eq_chars(&n, &want) {
            proof {
                lemma_first_named_prefix(command_order(), i as int + 1, name@);
            }
            return Some(all[i].cmd);
        }
        i += 1;
    }
    assert(command_order().subrange(0, all@.len() as int) =~= command_order());
    None
}

/// A name found in a prefix of the registry stays the answer for the whole
/// registry.
proof fn lemma_first_named_prefix(cs: Seq<Command>, k: int, name: Seq<char>)
    requires
        0 <= k <= cs.len(),
        first_named(cs.subrange(0, k), name) is Some,
    ensures
        first_named(cs, name) == first_named(cs.subrange(0, k), name),
    decreases cs.len() - k,
{
    if k < cs.len() {
        assert(cs.subrange(0, k + 1).drop_last() =~= cs.subrange(0, k));
        lemma_first_named_prefix(cs, k + 1, name);
    } else {
        assert(cs.subrange(0, k) =~= cs);
    }
}

} // verus!
