# copilot-session-tui

A terminal program for the sessions of the GitHub Copilot CLI: it lists them, resumes them, runs
several of them as panes side by side, keeps notes, snippets and a shell beside each, and makes
worktrees for isolated ones.

The decisions of the program are a library whose behaviour is stated in contracts and proved with
Verus. What touches the outside world (children, files, Git, the network, the screen) is ordinary
Rust around it.

## Layout

- `src/` is the library.
  - `input`, `mux`, `mux_input`, `inspector`, `paste`: keys, mouse events and pastes, the panes and
    their signals, and what an event does to the attached workspace.
  - `app`, `panels`, `run_loop`, `startup`, `restart`: the state of the program, the panels that
    follow the focus, the rounds of the loop, and the handover to an updated copy.
  - `session`: reading, naming and launching sessions, taking one over, and the life of a worktree:
    its plan, its registry entry, the files that go into it, and its removal.
  - `scratchpad`, `snippets`, `editor`, `terminal_pane`, `notifications`: what stands beside a
    session.
  - `theme`, `cells`, `text`, `screenshots`: colours, widths and pictures.
  - `paths`, `strings`, `hashing`: the ground under the others.
- `tests/` runs the library, with the real crates it calls.
- `app/` is the program around it.

## How the library and the program meet

A function that needs something from outside takes it as an argument: the output of a Git command,
the names in a directory, the time, the outcome of a write. Where outside work and decisions take
turns, the library holds a stage and says what comes next; the program does it and hands back what
happened. Making a worktree, ending a process, publishing a notification and handing over to an
updated copy are written that way.

Calls into other crates that only compute stay inside the library, each behind one small function
whose contract is trusted: text widths and grapheme clusters, SHA-256, ignore patterns, RFC 3339
times, JSON strings, random identifiers.
