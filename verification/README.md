# Oxide desktop

The window management of a Wayland desktop, with its behaviour stated as
contracts and proved by Verus.

- `src/` is the library. It holds plain values only: what is known of outputs,
  windows and clients (`space`, `element`, `state`), how windows are placed,
  tiled, moved, resized, animated and drawn (`shell`, `snap`, `group`, `drag`,
  `grabs`, `resize`, `animation`, `tick`, `ssd`, `render`), what clients' requests
  do (`events`, `requests`, `xdg`, `x11`, `popup`, `input`), and the panel
  (`panel`, `panel_ipc`, `apps`). What is left to do outside comes out as
  `Action`s. `laws` holds what is true of several of these together.
- `tests/` runs the library on concrete values.
- `app/` is the program: it speaks to clients through Smithay, draws text with
  cosmic-text, reads files and sockets, and shows the panel with GTK.

Coordinates that are fractions of a pixel are kept in steps of 1/65536 pixel, and
progress, opacity and scale as exact fractions, so nothing here depends on how
floating point rounds. Sums of coordinates stop at the ends of `i32`.

The time is an argument. Everything that moves by itself is advanced by
`AnvilState::tick_animations`.
