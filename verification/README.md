# lazybar

The verified core of a lightweight, event-driven status bar for EWMH-compliant
window managers on X11.

- `src/` is the library, written in Verus: how a bar's settings are read from
  the tables of its configuration, which panels are shown, how mouse buttons
  and messages are routed and how refused messages are answered, how the
  clock, the music player, the system tray, the workspaces and the other
  panels turn their data and events into text and state, how `/proc/meminfo`
  and `/proc/stat` are read, and how the bar's window is placed and described
  to the window manager. The public functions state their results in
  contracts that Verus proves. The calls into outside crates (`regex`,
  `aho-corasick`, `unicode-segmentation`, and `str::to_lowercase`) sit behind
  small trusted wrappers whose contracts name their results.
- `tests/` runs the library on concrete values.
- `app/` is the program around it: the command line, the configuration file
  (turned into the plain values that the library reads), the X11 window and
  the socket through which bars take messages, and the `lazybar-msg` client
  (the same program, invoked under that name). It opens the bar's window,
  clears away sockets that no bar answers on, answers the bar's messages, and
  runs the clock and memory panels, logging their text; it does not draw the
  panels, since the drawing libraries (cairo and pango) are not part of this
  build, and so it cannot tell which panel a press on the bar falls on.
