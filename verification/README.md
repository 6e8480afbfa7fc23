# Drawafunc

Drawafunc turns freehand drawings into Desmos expressions: batched line
segments, cubic Bézier curves, or experimental fits of `y = f(x)`.

- `src/` is the library, verified with Verus. It holds everything that works
  on plain values: quality presets and output modes, tool and shortcut
  decoding, the editing history of a drawing (undo, redo, erase, clear, save
  state) with its fingerprint, the cutting of strokes into x-monotone pieces,
  and the text of Desmos expressions and status lines. Coordinates are kept
  as the bit patterns of their `f32` values.
- `app/` is the egui program around it: painting and input, file I/O with
  serde, and all floating-point geometry (smoothing, simplification,
  Catmull-Rom curves, least-squares fits, number formatting).
- `tests/` runs the library on concrete values.
