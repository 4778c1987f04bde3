# nexus_linux

The decisions behind a clipboard manager's Linux integration, verified with Verus.

- `src/` holds the library. It works on plain values and touches nothing of the system:
  which session is running, which window has the focus, what to type to paste, how to read
  HTML and file lists from the clipboard, how to answer those who ask for it. Where the
  system has to be asked in between, a function takes the last answer and returns the next
  step. `src/laws.rs` states what holds between serving the clipboard and reading it.
- `app/` drives the system: environment variables, child processes, the X server, key
  synthesis.
- `tests/` runs the library on concrete values.

JSON is parsed by `serde_json` and percent-encoding undone by `urlencoding`. What the
library takes for granted of them, and of a few functions of the standard library, stands in
the contracts of the functions that call them.
