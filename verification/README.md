# eastStar

A screensaver for GNOME: a background daemon watches the session's idle
time and launches a fullscreen saver (Nebula Flight, Pipes or Fractal
Plasma), locks the session after a further delay, and a preferences panel
edits the settings and previews the saver.

## Layout

- `src/` – the verified library (Verus):
  - `settings` – the settings record, its clamping rules, the
    `key=value` config format (parse and write, proved to round-trip) and
    the config path;
  - `daemon` – the daemon's decisions: when to launch the saver, when to
    ask for a lock, when to dismiss;
  - `panel` – the panel's saver tracking, countdown and label text;
  - `control_panel` – the standalone macroquad control panel's frame step:
    which delay moves, lock request or saver entry a frame calls for;
  - `platform` – idle-monitor polling cadence and parsing of the desktop
    services' replies;
  - `lock` – the plan of lock commands and the attempt bookkeeping;
  - `pipes` – the 3D pipes world: growth, death, respawn, with the
    no-overlap invariant proved;
  - `saver` – waiting for the window size to settle;
  - `text` – the character-level helpers the parsers share;
  - `random` – the calls into `rand`.
- `app/` – the programs: the daemon loop, the macroquad saver window and
  visuals, the GTK preferences panel, and the file, process and D-Bus I/O.
- `tests/` – tests of the library.
