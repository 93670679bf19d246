# claude_session

Sessions of an interactive coding agent that runs in a pseudo terminal. The crate decides how
the agent's process is launched, how a prompt is typed and submitted, when the reply is there
(in the transcript or on the screen), when a permission request is asked about, when time is up,
and what a session remembers between turns.

- `src/` is the library, verified with Verus.
  - `pty`: the command line, the MCP configuration, the end of a process, the submission of a
    prompt.
  - `session`: sessions, turns, the wait for the prompt editor, and what is read off transcript
    and screen.
  - `terminal`, `text`, `os_text`, `json`, `ident`, `error`: what these rest on.
- `app/` runs it: processes, files, clocks and locks.
- `tests/` runs the library.

What takes time or touches the world is written as a state machine: `start` gives the first
action, and `step` turns what came of an action into the next one. `expects` says whether an
event may be handed in. The caller names the agent; the library puts that name in its messages.
