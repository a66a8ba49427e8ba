# garview

The verified core of an image and document viewer, written in Verus.

`src/` holds the library; every function in it carries a contract that
Verus proves:

- `viewer`, `formats`, `gallery`, `sidebar`, `slideshow`: what is shown —
  loading state, pages and frames, rotation and mirroring, search results,
  the sibling images of a file, the thumbnail grid, the page sidebar and
  the slideshow timer.
- `input`: what each key does, layer by layer (annotation mode, form
  fields, search bar, recent-files panel, properties panel, go-to-page
  dialog, window shortcuts, image view, gallery), with the dialogs' state.
- `history`, `annotations`, `shapes`, `tools`, `blur`: annotating — the
  drawing tools' state, the committed annotations with undo and redo, and
  the box blur.
- `forms`: editing PDF form fields.
- `recent`, `config`, `thumbnail`: the recent-files list with viewing
  sessions, configuration defaults, and the thumbnail cache.
- `markup`, `comic`, `text`, `format`, `sorting`, `paths`: text and
  ordering — plain text out of e-book markup and its pages, natural page
  order, the status bar and properties texts, stable sorting.
- `imaging`, `orientation`, `render`: pixels — decoding, thumbnails, PNG
  encoding, GIF frames (through the `image` crate), EXIF orientation
  (through `exif`), and surface conversion.
- `ipc`: the control socket's replies and location.

`app/` is the program around it: a window-less viewer that serves the
control socket, and the control client (`garview serve`, `garview next`,
...). It does the file and socket I/O, the clock, and JSON and TOML.

`tests/` runs the library on concrete values.
