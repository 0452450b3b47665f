# built_with_bevy

The "Built with Bevy" splashscreen for Bevy games, with its decisions
verified by Verus.

- `src/` is the verified library: the animation timeline and the steps a
  frame fires (`timeline`), the state of a splash in progress and what a
  start, a skip or a frame does to it (`splash`), the clocks of fades and
  keyframes (`clock`), render readiness (`readiness`), the options and
  their defaults (`options`), how each part is set up (`scene`), and the
  recolouring of the SVG sources (`recolor`, `color`).
- `app/` connects the library to Bevy: the plugin, its components,
  observers and systems, the floating-point interpolation of opacity and
  transforms, and a demo program. It embeds the SVG sources of the birds and
  texts from `assets/` at compile time.
- `tests/` runs the library on concrete values.

Times are kept in nanoseconds and colours in 8-bit sRGB inside the library.
