# cielago

A vim-style TUI for building and sending HTTP requests, organised into
collections that can be imported from an OpenAPI description. The rules of the
program are a verified library; a thin program around it talks to the terminal,
the disk and the network.

## Layout

- `src/` — the library, verified with Verus.
  - `model` — collections, requests, rows, auth schemes.
  - `text`, `json`, `ids`, `keys`, `style` — plain values the rest is built on.
  - `openapi/` — reading a description, resolving references, example bodies,
    field docs, and the import itself.
  - `http/` — variables, URL input, the request that goes out, tokens, secrets,
    and the steps of a send.
  - `highlight` — JSON and XML colouring.
  - `store` — where collections live and which one a typed name means.
  - `app/` — the state of the TUI and everything that changes it.
  - `input` — what each key does.
  - `ui` — what is on the screen, line by line.
  - `cli` — decisions and reports of the command line.
- `app/` — the program: arguments, setup questions, files, HTTP, drawing.
- `tests/` — the library at work on concrete values.

## How the contracts read

Every type has a view made of sequences and numbers. A function that changes the
state says which spec function of the old view the new view is; the public proof
functions under `// ----- laws -----` relate those spec functions to each other.

Calls into other crates (JSON and YAML readers, URL parsing, header checks,
identifiers, the text area, the clock) stand behind small trusted functions, each
with a comment on what is believed of it.
