# dmux

A terminal multiplexer client: the command line, the wire protocol it speaks
with the dmux server, and the attached client's input handling, screen
painting, command prompt and copy mode. The logic is a Verus library whose
functions carry contracts; the program around it reads the terminal and the
sockets.

## Layout

- `src/` — the verified library.
  - `cli.rs`, `config.rs`, `script.rs`, `dispatch.rs`: command-line and script
    parsing, key and option rules, and what each command sends.
  - `protocol.rs`, `wire.rs`, `encode.rs`, `decode.rs`, `laws.rs`: the request
    lines, their decoder, and the round-trip laws between the two.
  - `layout.rs`: pane layouts, splits, resizes and presets.
  - `keys.rs`, `input.rs`, `prompt.rs`: key bindings, the input translation of
    attached clients, and the command prompt.
  - `frames.rs`, `replies.rs`, `attach.rs`, `live.rs`, `render.rs`,
    `screen.rs`, `header.rs`, `popup.rs`, `copy_mode.rs`: reading server
    replies, the live client's state machine, and what is drawn.
  - `text.rs`, `json.rs`, `ids.rs`, `git.rs`: text, JSON and git helpers.
- `app/` — the program: sockets, the terminal, threads and files.
- `tests/` — tests of the library on concrete values.
