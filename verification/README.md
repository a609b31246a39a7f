# skip

An immediate-mode UI toolkit drawn with skia in winit windows.

- `src/` is the verified core: colours and vectors, keyboard and mouse
  input translation, the window event dispatcher with its frame scheduler,
  the text-box editing model (UTF-8 aware), resource registration, line
  wrapping of laid-out children, and the marker types that select layouts,
  alignments, operations and styles.
- `app/` holds what works in floating-point coordinates (widgets, layouts,
  alignment, drawing) and the winit/glutin/skia backend that performs the
  I/O the dispatcher decides on.
- `tests/` exercises the core on concrete values.
