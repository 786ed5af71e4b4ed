# carbonyl

The terminal side of a browser that runs in a terminal: it reads what the
terminal sends (keys, SGR mouse reports, device control replies), keeps the
navigation bar, turns page pixels and text into terminal cells, and writes
the escape sequences that draw only the cells that changed.

`src/` is the library, verified with Verus:

- `input/`, `terminal/input/`: byte-stream parsers for terminal input, with
  the law that reading input in pieces gives what reading it at once gives;
- `output/`: cells, the painter, the renderer (with the laws that a second
  render draws nothing and that every operation keeps cells in place), the
  quadrant glyphs, the palette quantizer and the window size fallback;
- `terminal/output/`: the xterm 256-color palette index;
- `ui/`: the navigation bar, with the law that typing a character and
  deleting it gives the bar back;
- `browser/`: what an input event asks of the browser;
- `cli/`: the command line;
- `gfx/`, `utils/`: colors, points, sizes, text helpers and the calls into
  `unicode-width`, `unicode-segmentation` and std's string editing.

`app/` holds what the library leaves out: raw terminal mode, reading stdin,
measuring the window, logging, the render thread and the C interface that
the browser calls.
