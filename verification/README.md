# PTY Bridge

Real interactive terminals for a host that works through tool calls: start a program on a
pseudo-terminal, write text or named keys to it, read what it shows, and be reminded when it has
gone quiet.

## Layout

- `src/` is the library: every rule of the bridge, verified with Verus.
  - `buffer`, `terminal`, `keys`: retained output, terminal queries, key encodings.
  - `emulator`, `screen`, `render`: the emulated screen and the text it shows.
  - `platform`, `session`, `supervisor`, `writer`, `reader`: the life of one session, as decisions
    over its shared state.
  - `silence`, `observation`: which output the reader of a session has seen, and when a reminder is
    due.
  - `pattern`, `waiting`: how long a read waits, and for what.
  - `reading`, `entry`, `launch`, `manager`, `control`: the sessions of one server, and how one
    is started.
  - `mcp`: what the tools accept and return.
  - `runtime`, `protocol`, `monitor`, `hooks`, `wait`: the records and messages by which the
    processes of one host session work together.
  - `background_task`, `watcher`: the lines that a waiting task prints.
  - `text`, `encoding`, `json`, `types`: what the others share.
- `app/` is the program around it: pseudo-terminals, threads, sockets, files and the tool server. It
  performs what the library decides and reports back what happened.
- `tests/` run the library.

Time is handed to the library in nanoseconds of a monotonic clock. What the terminal emulator cannot
draw is not drawn: `Screen::process` and `Session::ingest` stop there and say so, and `try_read` and
`try_evaluate` look before they render text.
