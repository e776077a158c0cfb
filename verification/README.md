# crosspoint_rs

A declarative UI framework for the screens of an e-ink reader's firmware, and
the screens built on it. Layout, input routing and drawing are stated in
contracts and proved. Coordinates and sizes are laid out within half of the
`i32` range, so that a coordinate plus a size is still an `i32`, and theme
metrics within 2^26; what the host answers (font metrics, translations, icon
sizes) is taken as given.

A screen describes itself as a tree of widgets. Each frame the runtime lays
the tree out, collects the regions each control declares, resolves that
frame's touch or button against them, applies the resulting message to the
screen, and records the drawing for the host to paint.

## Layout

- `src/` — the library, verified.
  - `geometry` — points, sizes, insets, rects.
  - `host` — what the framework asks of its host: the theme's metrics, font
    measurement, drawing primitives, dialog geometry and translations (traits
    the host implements), and a `Renderer` that records every drawing call as a
    `DrawOp`.
  - `view` — input kinds, triggers and the interaction collector; the
    `Widget` trait and the environment a tree is laid out in.
  - `layout` — stacks, spacers, and the flexible and tappable modifiers.
  - `widgets` — text, slider, stepper, list, toggle, section, modal and the
    icon toggle.
  - `screen` — the `Screen` contract, the `Runtime` that routes input and
    paints, and the two roots: a full navigation screen and an overlay panel.
  - `units`, `cells`, `device` — byte formatting, the cell tables the theme
    reads back, and the device vocabulary (icon roles, heap figures, the
    light and display writes a screen may queue).
  - `activities` — the frontlight panel and the Developers screen.
- `tests/` — scenarios on concrete values, run against a stand-in host.
- `app/` — the firmware boundary: the C declarations, the host services over
  them, painting recorded frames, applying queued device writes, and the
  activity lifecycle the firmware calls into.
