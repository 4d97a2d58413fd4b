# dropslim

The verified core of an image optimizer: which files a selection holds,
what each one is turned into (format, size limits, output path), whether the
result is kept, and what the user is told — per-image summaries, batch
totals, errors and command-line output.

- `src/` — the library, specified and proved with Verus.
- `tests/` — scenarios run against the compiled library.
- `app/` — the `dropslim` command line: argument parsing, file I/O, worker
  tasks, running gifsicle, and the WebP/AVIF/palette encoders (their
  settings are floating-point numbers).
