# ferrite

A low-CPU, configurable status bar for sway. Every module runs on its own
thread and updates only its own block; one writer renders the bar from a
snapshot of all blocks, either as i3bar JSON (colors, clicks, pango) or as
plain text.

## Layout

- `src/` — the library, verified with Verus: the layout template parser,
  the bar state and how a tick's block list is built from it, the
  configuration model and its defaults, the color palette and icon packs,
  click routing, and for every module the parsing of what it reads and the
  composition of its block (`src/modules/`).
- `app/` — the program around it: arguments, configuration files (TOML),
  the module threads and their I/O (sysfs, `/proc`, helper processes, sway
  IPC, D-Bus), and the render and click loops.
- `tests/` — tests of the library on concrete values.
