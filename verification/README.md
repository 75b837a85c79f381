# TAI — Terminal AI

A terminal emulator with a built-in AI assistant: split panels with tabs,
workspaces (local or on a remote host over SSH), a scrollback minimap, and
an assistant that answers in the terminal and runs shell commands through
a `run_command` tool, after confirmation or automatically.

## Layout

- `src/` — the library, verified with Verus. Every function states what
  it computes in `requires`/`ensures` over mathematical models (`Seq`,
  `Map`, views of the library's types), and the laws of the library
  (`lemma_*` proof functions) are proved there:
  - `router` — where keys go, the AI conversation, the queue of tool calls,
    capturing a command's output and answering its tool call;
  - `capture`, `ansi`, `text` — markers and scripts of captured commands,
    reading their output and exit code back, escape sequences, text;
  - `split`, `workspace`, `tab_bar`, `ui`, `overlay`, `status_bar`,
    `selection` — the panel tree and its layout, workspaces and the sidebar,
    tab bars, shortcuts, dialogs and what each frame draws;
  - `session` — saving a session and restoring it;
  - `minimap` — the minimap's lines read from the shell's output;
  - `terminal` — key and mouse encoding plans, painting cells, starting a
    shell, remote shells, the record of the terminal engine;
  - `ai` — messages, the conversation's limits, the context given to the
    AI, and assembling a streamed reply.
- `app/` — the program around the library: the window and its frame loop
  (raylib), the terminal engine (libghostty-vt), pseudo-terminals, SSH
  connections, the AI service, files and the clipboard.
- `tests/` — tests of the library on concrete values.

The calls into outside crates that the library makes (UUIDs, JSON, UTF-8
decoding, the configuration directory) are trusted items whose contracts
say what the crates' documentation promises.
