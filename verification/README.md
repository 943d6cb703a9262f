# Lumen

Desktop time tracking: follows the foreground window, idle time and
fullscreen games, and shows per-application usage in a small custom-drawn
window with a tray icon. Sessions are stored in SQLite.

## Layout

- `src/` — the verified library (Verus):
  - `usage.rs`: the accounting state machine (`Aggregator`), the usage
    list, sessions and their splitting at local midnight, the write buffer;
  - `tracker.rs`: which events a foreground change produces, window titles
    from X11 properties, process names, fullscreen heuristics, the macOS
    lock-screen rule;
  - `idle.rs`: the idle watcher's decisions;
  - `localtime.rs`: calendar dates and the choice of the next local
    midnight from the system time zone's answers;
  - `icon.rs`: `_NET_WM_ICON` selection and pixel conversions for GDI and
    Core Graphics icons;
  - `ui.rs`: the window's interaction state and what each input asks for,
    the search filter;
  - `donut.rs`, `duration.rs`, `pixels.rs`: the day's chart data, duration
    labels, and pixel transfers;
  - `entries.rs`, `text.rs`: association lists and string building.
- `app/` — the program around it: X11 and procfs access, SQLite, the
  configuration file, winit/softbuffer/tiny-skia rendering, the tray icon.
- `tests/` — tests of the library.
