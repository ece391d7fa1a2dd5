# wtftw

Window Tiling For The Win: a tiling window manager for X, in the manner of
xmonad, whose core is verified with Verus.

## Layout

- `src/` is the verified library.
  - `stack.rs`: the focus stack (a zipper of windows) and its laws.
  - `workspace.rs`, `screen.rs`, `workspaces.rs`: workspaces, screens, and
    the set of all workspaces with its operations (view, greedy view, focus,
    swap, shift, insert, delete, float, sink), each stated over a
    mathematical model.
  - `layout.rs`: splitting screens into tiles, the tall layout, struts of
    panels and docks.
  - `window_manager.rs`: the decisions of the window manager (manage,
    unmanage, focus, rescreen, the count of expected unmaps).
  - `arrange.rs`: what the screens show after a change: new windows, the
    windows each layout places, floating windows, windows to hide.
  - `events.rs`: how each event of the window system is answered.
  - `decode.rs`: reading X events, Xinerama screens and size hints.
  - `handlers.rs`: window ids handed over a restart (as JSON), terminal
    arguments, moving windows between workspaces.
  - `laws.rs`: properties that relate several operations.
- `tests/` runs the library on concrete values.
- `app/` is the program: the X11 backend, the configuration, the layouts
  with their float ratios, and the event loop.

## Verifying

The library verifies with Verus; the tests and the program build with the
outside crates named in `Cargo.toml`.
