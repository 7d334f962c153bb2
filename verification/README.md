# gcode_frame_gen

Generates the G-code that mills a holding frame around a PCB: it reads the
board's own TAP program, finds the board from the cutting (G1) moves, places a
frame around it with holding tabs on the upper edge, and writes a program that
follows the frame's rounded outline in depth passes.

Lengths, feeds and speeds are fixed-point integers in millionths (one
millimetre is `1_000_000`). Decimal text is read to the nearest millionth
(halves away from zero), words beyond 10^12 mm are ignored, and values are
written with three decimals (halves away from zero) or six (exactly).

## Layout

- `src/` — the library, verified with Verus:
  - `number`, `text`: decimal reading and writing, character helpers;
  - `domain`: board bounds and frame geometry with tab placement
    (`frame`), the G-code reader (`gcode`), the settings model and its
    legacy migration (`settings`), the offset calculator;
  - `export`: the frame program;
  - `actions`: what the application's actions decide (the editor's view of
    a large source, applying a source, the material check before export,
    the calculator's texts, snapping outlines);
  - `preview`: colours, camera, panning, scene extent and the layers a
    preview draws.
- `app/` — a command-line front end: settings file (serde), file I/O, the
  floating-point conversions, the screen mapping (zoom about a point) and
  the CPU preview rasterizer.
- `tests/` — tests of the library.
