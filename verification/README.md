# rv_vectorize_tui

The state and decisions of the full-screen terminal front end of the
`rv-vectorize` LLVM loop vectorizer, written in Verus and verified.

- `src/` is the library: the editable path fields (`text_field`), the form's
  focus, selectors and toggles (`form`), the key table and what each key does
  (`keys`), the session transcript and its scrolling (`history`, `scroll`),
  the command line of a run and its shell quoting (`command`), the life of a
  run (`run`), the side-by-side diff rows (`diff`), word wrapping (`wrap`),
  the text the panes show (`display`), file labels (`path`), and the
  properties that hold across operations (`laws`). `text` holds the character
  and string facts the rest builds on.
- `app/` is the terminal program around it: the event loop, the background
  run of `rv-vectorize`, file reading, and the drawing with `ratatui`.
- `tests/` runs the library on concrete values.
