# mdrs

The verified core of a lightweight Markdown editor with live preview.

`src/` is the verified library:

- `format` — byte sizes for display ("512 B", "1.5 KB"), exactly as a
  double formatted with one decimal.
- `file_loader` — read strategy by file size (direct up to 1 MB, buffered
  above), UTF-8 decoding of the bytes read (with ropey), load errors.
- `paths` — file-system paths as plain values (display text and components).
- `workspace` — the Markdown files of a folder, relative to it, sorted by
  relative path.
- `preview` — the preview's blocks, folded from pulldown-cmark's events; only
  the first 512 KB of a document are parsed.
- `app_state` — launch modes, panes, pages, sidebar, loading, dirty
  tracking, saving, and the status-bar text.
- `icons` — icon asset paths and the asset listing.

`app/` is the desktop program around it (gpui windows, file-system access,
the style file), and `tests/` runs the library on concrete values.
