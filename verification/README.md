# planarwm

A 2D scrolling window manager for the [river](https://codeberg.org/river/river)
compositor: each workspace is a column of screen-sized slides, and each slide
lays out its windows as a scrolling row, a master/stack split, or floating.

The window manager's logic is a Verus library in `src/`, verified against
contracts stated over mathematical models:

- `geometry`, `window`, `slide`, `workspace`, `desktop`: the data model and the
  layouts (vertical scroll, master), slide creation and removal, moving windows
  between slides, closing and focusing.
- `task`: deferred work (geometry changes, animations, camera moves, pointer
  warps, maximize, focus by name) and the task queue's tick.
- `seat`, `interact`, `actions`, `text`: key and pointer bindings, parsing of
  modifier and action text, and what each action does.
- `events`, `manage`, `cycle`, `frame`: river's events and the manage and render
  cycles, as functions from state to next state and a list of `Effect`s.
- `ipc`, `requests`: the IPC socket's line framing and the answers to clients.
- `background`: wallpaper decoding (through the `image` crate) and its pixels,
  tiled from the camera.
- `checks`, `guards`: executable tests of the arithmetic and indexing bounds
  that the verified functions require.

`app/` is the program around it: configuration loading (HOCON), keysym lookup,
the IPC thread and JSON, starting programs, reading the wallpaper file and its
shared-memory buffer, and the `f32` animation arithmetic passed to the library
as closures.
