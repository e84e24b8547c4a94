# notmux

The model behind the NotMux terminal multiplexer, written in Verus. The
functions in `src/` carry contracts that Verus proves, except a small set of
trusted wrappers (marked `#[verifier::external_body]`): each makes one call
into std, `jiff` or `uuid`, and its contract, taken on trust, states what
that call's documentation or source shows.

## Layout

- `src/` — the verified library.
  - Workspace data and its actions: `state`, `workspace`, `visibility`,
    `visibility_laws`, `lifecycle`, `remote_sync`, `remote_id`.
  - Sidebar: `sidebar` (open/auto-hide/hover state), `sidebar_items`
    (the project and folder tree with worktree children), `sidebar_cursor`
    (the rows the keyboard cursor walks and what a key does on them),
    `file_explorer` (git status roll-up of directories), `rename_directory`,
    `request_broker`, `toast`.
  - Terminals: `terminal_input` (typed text and dropped paths),
    `command_tracking` (shell integration markers), `scrollback`
    (snapshot format), `shell` (integration scripts), `url_detector`
    (links under the mouse and the editor command that opens them).
  - Themes: `color`, `color_map`, `vscode`, `jsonc`.
  - Settings and the rest: `settings`, `updater` (the update checker as a
    state machine), `diff`, `markdown`, `ui_helpers`, `text`.
- `tests/` — tests that run the library.
- `app/` — the plain Rust around it: files on disk, the environment, the
  update driver, and serde forms of the library's types.

## Checking

Verus verifies `src/`; the tests run with `cargo test`.
