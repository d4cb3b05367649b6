# omaview

A GTK image viewer for Omarchy desktops: an album overview, a viewer with a
filmstrip, zoom and pan, non-destructive rotate / flip / crop / color edits,
EXIF details, and a style sheet that follows the current Omarchy theme.

The crate is split in two:

- `src/` is the library, verified with Verus. It holds the viewer's logic:
  natural file-name ordering, supported-file detection, file-size text, the
  least-recently-used image and thumbnail caches, pixel premultiplication
  for Cairo, image decoding and thumbnails, the edit state and the crop /
  rotate / flip pipeline (the pixel work itself is the image crate's), the
  navigation and trash state of the window, the shortcut table and what each
  shortcut does in each state, the viewport's crop and fit modes, the
  filmstrip's slot geometry and selection, album-list bookkeeping, path
  comparison by components, the metadata texts, EXIF field formatting (the
  parsing itself is kamadak-exif's) and the theme style sheet.
- `app/` is the GTK program around it: widgets, drawing, gestures, file and
  directory access, saving images, the theme file watcher, and the floating-
  point work (zoom, pan, crop frames, color adjustments).

`tests/` exercises the library from outside.
