# ratzilla

Terminal-themed web applications with ratatui: three renderers (DOM, canvas
2D, WebGL2) draw a terminal's cells in the browser.

- `src/` is the library, written in Verus: the cell grids of the renderers and
  what each draws, in which order and where (span layout and updates for the
  DOM, batched drawing operations for the canvas, the flat GPU buffer for
  WebGL2), the CSS of cells, cursor styling, key and mouse event mapping, and
  terminal sizes. Every function carries a contract that Verus proves.
- `tests/` exercises the library on concrete values.
- `app/` is the browser side: the ratatui `Backend` implementations, which
  create elements, run the drawing operations on a canvas context, upload
  cells to the WebGL2 renderer and register event listeners.
