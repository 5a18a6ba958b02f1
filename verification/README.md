# Piccolo

The colour logic of Piccolo, a small GTK colour picker, as a Verus library.

- `src/rgb.rs`: colours as 8-bit channels; writing and reading the hex code
  `#RRGGBB`, and the `RGB: r, g, b` label.
- `src/color_format.rs`: the colour formats the picker lists, their titles,
  and the text of the RGB format.
- `src/history.rs`: the history of saved colours and the page it shows.
- `src/actions.rs`: the window's actions, their parameters and key bindings,
  and the reading of the copy action's parameter.
- `src/wheel.rs`, `src/window.rs`, `src/config.rs`: the decisions of the
  colour wheel, the window and the application.
- `app/`: the GTK application around the library: widgets, signals, drawing,
  and the floating-point colour conversions.
