# rugit

A Magit-style git interface for the terminal: a status buffer of foldable
sections, commands that act on the thing at point, and transient menus with
command-line switches. Git operations shell out to the real `git` binary.

The logic is a library verified with Verus; the program around it owns the
terminal, the threads and the processes.

## Layout

- `src/` — the verified library.
  - `git/` — parsing git's output (porcelain v2 status, diffs, logs,
    stashes), building patches for hunks and single lines, the interactive
    rebase todo format, and the command lines the client runs.
  - `keymap.rs`, `command.rs`, `route.rs` — key notation, prefix-free
    keymaps with buffer-local layers, and which overlay a key goes to.
  - `ui/` — the section tree and its flattening, panes (cursor, folding,
    search highlighting), the transient menus, the minibuffer with fuzzy
    picking, the buffer builders, the help overlay and the status bar.
  - `dwim.rs`, `ops/` — what stage/unstage/discard/visit do at point, and
    the flow of the menu actions: the questions each asks and the git
    command it runs. Spinning a branch out (staying on it) and the branch
    variables menu have no flow; the app says they are not available.
  - `activity.rs`, `session.rs`, `clipboard.rs`, `config.rs`, `theme.rs` —
    the process log, single-flight refresh, confirmations, search, the
    clipboard fallback chain, and user configuration.
- `app/` — the executable: terminal setup and drawing with ratatui, input
  and `.git` watcher threads, running git, and reading the config file.
- `tests/` — tests of the library.
