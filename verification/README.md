# dwx

A keyboard-driven terminal file manager and tiled file viewer, with its
logic verified by Verus.

- `src/` is the verified library: directory navigation with remembered
  cursor positions and live filtering (`tree`), the file manager's key
  handling, deep-search bookkeeping and previews (`workspaces`), the split
  view layout trees, tabs, workspaces and regex search of the viewer
  (`app`), content-addressed buffer names (`crypto`), archive naming and
  member listing (`actions`), syntax-highlighted rows (`highlight`),
  scrolling of the full-screen viewer (`editor`) and the drawing
  arithmetic (`ui`). Calls into `std::path`, `regex`, `blake3`, `syntect`,
  `tar` and `flate2` go through small trusted functions whose contracts are
  documented where they are declared.
- `app/` is the program around it: the terminal loop, directory and file
  reads, the background search thread, archives and links on disk, and
  drawing with `crossterm` and `devicons`.
- `tests/` exercises the library on concrete values.

## Keys

`j`/`k` (or arrows) move, `l`/`→`/`Space` enter a directory, `h`/`←`/
`Backspace` go to the parent, `Enter` opens a file, `F2` renames, `n`
then `d`/`f`/`a`/`h`/`s` creates a directory, file, archive, hard link or
symbolic link, `F5` refreshes, `/` filters, `?` searches below the current
directory, `g` then a letter jumps to a known directory, `q` quits.
