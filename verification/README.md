# TunnelDeck

TunnelDeck manages SSH port forwarding for one user: a terminal client and a command line talk
to a daemon over a Unix socket, and the daemon runs OpenSSH.

* `src/` is the library: rules and their validation, discovery of SSH hosts, import of
  forwards, the configuration schema, the daemon's decisions and its recovery of rules, the wire protocol's frames, the
  log's rotation, and the terminal client's state. Every function has a contract that Verus
  proves; laws that span several functions are public proof functions.
* `app/` is the program `tdeck` around it: files, sockets, processes, JSON and TOML, the
  command-line grammar and the drawing of the screen. It performs what the library decides and
  hands the outcomes back.
* `tests/` runs the library on concrete values.

Paths are bytes, times are milliseconds and UUIDs are 128-bit numbers in the library. What
stands behind an outside function is believed, not proved: see `text`, `identity`,
`config::store` and `tui::mouse`.
