# boomerang

A tmux-popup picker for GitHub issues: browse, search, create, edit and close
the issues of the repository in the current pane, through the `gh` command-line
tool.

## Layout

- `src/` is the library, written in Verus and verified:
  - `model.rs`: the issues and the application state, with every operation a
    key can trigger (the Settings view among them) and laws about them
    (cancelling and keeping a form, undoing moves, what a submission sends).
  - `session.rs`: what each key press and each finished background job does to
    the state, and which outside work (a `gh` call, the clipboard, the browser)
    comes next.
  - `keys.rs`: the key bindings of every screen.
  - `checks.rs`: the set of issues checked for copying together, read back
    by ascending number.
  - `gh.rs`: the `gh` argument lists, reading its output, repository specs.
  - `cli.rs`: the command line, error texts and hints.
  - `search.rs`, `view.rs`, `copy.rs`, `config.rs`, `diagnostics.rs`,
    `loading.rs`: ranking, screen texts and row layout, clipboard texts, the
    recent-repository list, log lines and token redaction (with the law that
    redacting twice changes nothing), spinner timing.
  - `text.rs`, `editor.rs`, `clock.rs`: character-level helpers, the form's
    text areas (`ratatui-textarea`) and the clock, behind stated contracts.
- `app/` is the program around it: the terminal, threads, processes, files and
  drawing with ratatui.
- `tests/` runs the library on concrete cases.
