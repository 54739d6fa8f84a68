# rcode

A terminal chat client for a coding agent. The verified library (`src/`)
holds the chat state and its decisions; `app/` is the terminal program
around it.

- `src/text.rs`: joining lines, blank-input detection, decimal line
  numbers, and the call into `textwrap`.
- `src/app.rs`, `src/app/message.rs`: messages and their text, the
  cached transcript, heights, scrolling, focus, and what each terminal
  event or agent reply does to the state.
- `src/ui.rs`: the state that drawing records and the status line.
- `src/agent.rs`, `src/agent/file_tool.rs`: agent events and the file
  tools' logic (listing, regex search, line ranges).
- `src/agent/pattern.rs`: compiled search patterns, the only code that
  calls into `regex`.
- `app/`: ratatui drawing, crossterm input, the rig agent and its tools,
  and the file and directory access that the tools need.
