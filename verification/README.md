# kubide

The decisions of a code editor, verified with Verus, and the program around
them.

A window of panes holds editors, terminals, file trees, a git panel, a settings
screen and an agent. What a key, a click, a tick of the clock or an answer from
a process comes to is decided by the library in `src/`. Each of its functions
says in its contract what it does to the state and what is left to be done
outside, and Verus proves that it does.

`app/` is the program: it draws, reads and writes files, runs processes, and
carries out what the library decided.

## Where things are

- `path`, `text`, `scroll`, `calendar`: paths, text, scroll positions and dates
  as values.
- `panes`, `desk`, `desk_steps`, `keys`, `mouse`, `tick`, `vim`, `clipboard`,
  `pointer`, `start`: what is in the window and what happens to it.
- `content`, `git`, `palette`, `folders`, `dialog`, `agent`, `agent_pane`,
  `transcript`, `pomodoro`, `lsp`: what a pane or an overlay holds.
- `session`, `places`: what is remembered between runs, and how it is written.
- `editor_view`, `terminal_view`, `tree_view`, `git_view`, `settings_view`,
  `welcome_view`, `dialog_view`, `palette_view`, `agent_view`, `help`, `status`:
  what is on the screen, as rows and words.
- `window`: three small trial programs about the window itself.

Promises that span functions are public proof functions beside what they speak
of. Those of the agent's pane are in `agent_laws`.
