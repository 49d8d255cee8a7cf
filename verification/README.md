# drift

The window-management core of an infinite-canvas compositor, verified with Verus.

The logical model of a compositor changes at once; what it draws follows over the next
frames. This library holds both halves as plain values: the viewports of the outputs, the
windows on the stage and where they are pinned, the recenters still owed to them, the
geometry of their frames, the animations that lerp the drawn picture after the model, and
the snapshots that fade after a window has closed.

- `src/scalar.rs`, `src/fixed.rs`: the number that geometry is computed in. Contracts are
  stated over the ghost twins of `Scalar`'s operations, and hold of a number whose
  operations are functions and whose twins are those functions. `Fixed`, a saturating
  fixed-point number, is one; the numeric laws are proved of it. Nothing is shown of
  floats themselves.
- `src/geometry.rs`, `src/time.rs`: points, sizes, rectangles, and readings of a clock.
- `src/state.rs`: outputs, windows and the stage.
- `src/viewport.rs`, `src/pinned.rs`, `src/recenter.rs`, `src/resize.rs`,
  `src/window_frame.rs`: the operations on them.
- `src/window_animation.rs`, `src/animation_laws.rs`: the animations of live windows, and
  what holds of them over any run of frames, moves and commits.
- `src/closing.rs`: the snapshots of closed windows.
- `app/`: the glue to a Wayland display server and a GL renderer.
- `tests/`: scenarios, run on double-precision floats.

Functions named `law_..` are the properties the library promises across operations.
