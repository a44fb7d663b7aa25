# riv

A fast, minimal image viewer: a two-pane browser (list or thumbnail grid next
to a preview), a single-image view, a side-by-side compare view, zip archives
browsed like folders, and a few file operations (rename, copy, rotate, move to
trash, open in GIMP or Krita).

## Layout

- `src/` is the library, written and proved with Verus:
  - `dir.rs`, `sorting.rs`, `calendar.rs`: listings of folders and zip
    archives, their stable sorting, and the size and date columns;
  - `state.rs`, `input.rs`: the browser state and what each frame's keys and
    pointer do to it;
  - `browser.rs`: navigation, filtering, selection, menus and edit actions;
  - `cache.rs`: the LRU texture caches, pending decodes and prefetching;
  - `decode.rs`: the decode queue and plan, and decoding through the `image`
    crate;
  - `metadata.rs`: EXIF fields and PNG text chunks, and the metadata panels;
  - `display.rs`, `text.rs`, `config.rs`: status bar and overlay texts, text
    helpers, start-up settings and external tools.
- `app/` is the program around it: command line, configuration file, window
  and drawing, worker threads, external decoders and file operations.
- `tests/` exercises the library on concrete values.
