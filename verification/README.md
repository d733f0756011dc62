# nv-overlay-slint

A performance overlay (HUD) for Linux gaming sessions, with its decision and
parsing logic verified in Verus.

- `src/` — the verified library:
  - `config` — default runtime settings;
  - `text` — string primitives with exact specifications (Unicode trimming,
    upper-casing, lines, splitting, words, substring search, decimal numbers);
  - `ipc` — the command protocol between the command-line front end and the
    daemon: keywords, request framing, the daemon's answers;
  - `overlay` — the overlay's command state machine and docking geometry;
  - `platform` — session detection, X11 window search, display defaults and
    `xrandr` output parsing;
  - `telemetry` — the parsing and bookkeeping behind each metrics source
    (MangoHud, AMD sysfs, `nvidia-smi`, CPU sensors, sample history, sampling
    period).
- `app/` — the program: sockets, threads, X11 calls, system queries, floating
  point metrics and the Slint user interface.
- `tests/` — tests of the library, many of them against the standard library's
  own behaviour.
