# cutliner

The core of a desktop tool that removes image backgrounds and traces cut
lines, written in Verus.

- `src/` is the verified library: decimal text of coordinates, the SVG
  document of traced contours, file naming, the session state that the
  commands share, what saving to a chosen path does, and which image
  operations each processing mode runs.
- `app/` is the Tauri shell: commands, dialogs, file access and the OpenCV
  image operations, driven by the library's decisions.
- `tests/` exercises the library on concrete values.
