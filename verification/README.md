# mortty

A GPU terminal emulator whose terminal model and decision logic are verified
with Verus.

- `src/` — the verified library:
  - `terminal.rs`: the cell grid, cursor and pen, and the parser actions on them
    (print, control bytes, CSI colours and cursor movement, resize), with an
    abstract view (`TerminalView`) and the laws relating the actions;
  - `sgr.rs`: the colour parameters of `CSI ... m`;
  - `palette.rs`: the 256-colour palette and the default text colour;
  - `screen.rs`: the text the renderer draws, plain and split into colour runs;
  - `quads.rs`: the rectangles filled besides the text (cell backgrounds, block
    characters as exact shapes);
  - `surface.rs`: the surface format choice (through `wgpu`), accepted resize
    requests, and the grid size a surface holds;
  - `pty.rs`: the shell command and the reader loop's decisions;
  - `window.rs`: the event loop's decisions.
- `app/` — the program: winit event loop, wgpu/glyphon rendering, the
  pseudo-terminal (portable-pty), the vte parser hook-up, the quad pipeline and
  the configuration file.
- `tests/` — tests of the library on concrete values.
