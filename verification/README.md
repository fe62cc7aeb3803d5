# runbook_tui

A terminal user interface for running shell commands from a TOML runbook
and HTTP requests from Postman or OpenAPI collections.

The project is split in two:

- `src/` is the library, verified with Verus. It holds the logic of the
  program with its contracts: key bindings, the application state and its
  reaction to every key press, Postman and OpenAPI import, variable
  substitution and secret masking, themes, line wrapping and syntax
  colouring, export texts and the outline of CWL documents.
  `src/properties.rs` states properties that span several functions.
- `app/` is the program around it: argument handling, files, processes,
  HTTP requests and drawing with ratatui. It hands the library plain values
  and performs the actions the library returns.

`tests/` exercises the library on concrete inputs.
