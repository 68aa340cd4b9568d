# xxkb

A keyboard layout indicator and switcher for X11: a small flag of the
current layout on every window and on each output, with per-window
layout memory, application rules, a TOML configuration with hot reload,
a D-Bus service and a GTK settings editor.

## Layout

- `src/` — the library, written in Verus and verified: keyboard groups
  and two-state switching, the per-window registry, application rules,
  output layout and indicator placement, the configuration model, its
  validation and the settings editor, the legacy `.xxkbrc` migrator,
  pixel conversion and borders, icon resolution, the decision logic of
  the X event tracker and of the daemon (an event and the current state
  in, the new state and a list of effects out). Calls into outside
  crates (`globset`, `indexmap`, `dirs`, `shellexpand`) go through small
  trusted wrappers whose contracts are stated next to them.
- `app/` — the programs around the library: the daemon's event loop and
  X11, D-Bus, sound and file I/O, SVG and raster rendering, and the GTK
  settings window. It performs the effects the library decides on.
- `tests/` — tests of the library on concrete values.
