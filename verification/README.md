# zxtracker

A window focus time tracker: a daemon records how long each application window
keeps the focus, detects idle time, and reports usage per day, week, month or
label, with an analysis of durations, activations, a two-hour heatmap and the
time each application is first seen, shown one view at a time (`←` `→` or
`1`-`4` switch, `q` or `Esc` leave). Data is kept in `track/track.db` in the
user's local data directory; the daemon listens on `track.sock` in
`$XDG_RUNTIME_DIR`, or `/tmp/track.sock`.

- `src/` is the verified library (Verus): text layout of every report, the
  desktop-entry and path based display names, the daemon's decisions (when a
  focused window becomes a stored session, what idleness closes), the usage
  tables and rankings, the analysis views and the keys that switch them, the
  idle-probe output parsing, date windows (through
  `chrono`) and data locations (through `dirs`).
- `app/` is the program around it: command line, SQLite store, Unix-socket
  server, niri polling, idle probes, terminal key reading and printing.
- `tests/` exercises the library on concrete values.
