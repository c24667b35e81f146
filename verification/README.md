# fluxer_tui

The verified core of a terminal client for the Fluxer chat service, written
in Verus. `src/` is the library: the chat service's data model, read and
notification state, channel ordering, slash commands, message markup and the
lines of the message pane, what each key press does, how gateway events
change the state, and the gateway protocol's decisions. Every function in it
carries a `requires`/`ensures` contract that Verus proves; calls into
`chrono`, `emojis` and `unicode-width` go through small trusted wrappers
whose contracts say what those crates document.

`app/` is the program around it: argument handling, the HTTP client, the
websocket loop, the terminal drawing with ratatui, and the event loop. It
hands the library plain values and carries out the actions the library
returns.

`src/laws.rs` states properties that relate several operations (what one
step undoes of another, what every edit keeps). `tests/` runs the library on
concrete inputs.
