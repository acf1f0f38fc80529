# commmon

A serial-port daemon and its interactive client. The daemon keeps the
serial ports open, logs their data to files and serves any number of clients
over a line-based JSON protocol on TCP; the client sends commands typed at a
prompt and shows the replies and notifications.

## Layout

- `src/` — the library, verified with Verus:
  - `text.rs`, `codec.rs` — words, trimming, decimal and hexadecimal numerals,
    the payload encoding of `write_port`, received bytes as text.
  - `json.rs`, `protocol.rs` — the JSON values of the protocol and its
    requests, replies and notifications.
  - `table.rs` — an insertion-ordered table keyed by name.
  - `serial.rs` — the registry of open ports and logs, with the decisions of
    `open_port`, `write_port`, `start_log`, `update_log`, `stop_log`,
    `close_port` and `port_status`.
  - `session.rs` — a client's receive buffers and pushed ports.
  - `daemon.rs` — command routing and the replies of the dispatch.
  - `repl.rs`, `render.rs` — the client's command parser and the layout of
    what it shows.
  - `sdk.rs` — the requests and records of the live-data client library.
- `app/` — the program around the library: the TCP server, serial I/O, log
  files, the web monitor, the line editor and argument handling.
- `tests/` — tests of the library on concrete values.
