# lukan-tui

The terminal chat of the lukan agent, as a verified library: every function
under `src/` carries a contract that Verus proves.

- `screen`, `model`, `grid`, `cell`, `parse`, `utf8`, `width`, `terminal`,
  `keys`: the embedded terminal, a VT100-style screen fed with bytes, its
  scrollback and selection, and the bytes keys send.
- `transcript`, `chat`, `format`, `summary`, `scroll`: the chat while the
  agent answers, tool calls and results, and what goes up into the
  scrollback.
- `daemon`, `session`, `event_agent`, `history`: the daemon's events, saved
  sessions, the event agent and the events files.
- `input`, `prompt`, `submit`, `commands`, `routing`: the input line, the
  prompt's keys, what a submitted line asks for, and which part of the
  interface a key or a paste goes to.
- `overlays`, `plan`, `question`, `picker`, `models`, `tool_groups`,
  `widgets`, `layout`, `banner`, `system_prompt`, `time`: the prompts and
  pickers over the chat, what they show, and where things go on screen.
- `laws`, `editing_laws`: properties that span several functions.

`app/` holds what cannot be verified: terminal and file I/O, the
pseudo-terminal, and drawing with ratatui.
