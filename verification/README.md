# MultiMouseCanvas core

MultiMouseCanvas records where the mouse goes and paints it as artwork. This
crate holds its logic, each part with a contract checked by Verus:

- `session`: the engine's decisions (lifecycle requests, shutdown, what it
  publishes and when, the order of work in its loop, the export it runs),
  session identifiers, recovery file naming and tile bookkeeping.
- `canvas`: the sparse tile store and the preview's mirror of the engine's
  tiles.
- `app_colors`: the colour rules per application, kept in key order.
- `app`: the window's decisions (action table, commands, lifecycle of
  shutdown, dialogs, engine acknowledgments and frames).
- `platform`, `capture`, `export`, `display_profiles`, `ipc`, `logging`,
  `settings`: naming, numbering, normalisation and small state machines.
- `keyed`, `text`: association lists and character-level helpers.

`app/` is the program around the library: command-line handling, the
single-instance socket, file input and output and the floating-point pixel
work. `tests/` exercise the library from outside.
