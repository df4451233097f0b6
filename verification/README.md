# opencut

The verified core of the OpenCut video editor's graphics code, written in Verus.

## Layout

- `src/` — the verified library.
  - `chars.rs` — character-level helpers: whitespace, trimming, decimal text.
  - `graphics/gradient/` — the CSS gradient reader: `ast` (the syntax tree),
    `scan` (token scanners), `model` (the grammar as spec functions), `parser`
    (the executable reader, proved against the model), `raster` (background
    layers), `stops` (writing colors back as text), `laws` and `safety` (what
    holds of every accepted input, and which inputs are read without panicking),
    `round_trip` (colors written back as text read back the same),
    `spelling` (a gradient's name in any ASCII case, after any vendor prefix).
  - `graphics/color.rs` — text-level reading of CSS colors (function
    arguments, hex digits, transparency).
  - `text/` — 8-bit RGBA colors, their web hex notation, and RGBA pixel buffers.
  - `mask_defs/` — stroke colors for masks, read into `tiny_skia` colors.
  - `effect_defs/js_number.rs` — the number text that JavaScript's
    `parseFloat` reads, as the effect parameters are coerced.
  - `storage/` — where projects lie on disk.
  - `renderer/plan.rs` — the scene builder's decisions: which elements are
    drawn, in what order, from which media, and which tracks are drawn.
  - the remaining modules hold the plain data types shared across the editor.
- `app/` — ordinary Rust around the library: floating-point color math,
  gradient stop offsets, drawing backgrounds with tiny-skia, effect parameters
  read as floats, and error types
  that implement `std::error::Error`.
- `tests/` — tests of the library through its public interface.
