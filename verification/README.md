# fsprompt

fsPrompt turns a selection of files from a local directory into a prompt for large
language models, in XML or Markdown, with an optional drawing of the directory tree.

The library under `src/` holds the logic, each function with a contract proved by Verus:

- `types`: token counts and levels, file sizes and read strategies, paths, selection states.
- `history`: the bounded undo/redo history of selections, with its laws.
- `tree`, `dirtree`: the lazily loaded file tree with tri-state selection, ignore patterns,
  the visible rows for a search, and restoring a recorded selection.
- `patterns`, `text`, `paths`, `order`, `sort`: glob and regex ignore patterns, string
  handling, path components, orders and a stable sort.
- `fstree`, `generator`: the drawn directory tree and the XML/Markdown output with the
  events that end a generation.
- `scan`, `config`: grouping scanned entries by directory, deciding how a file is read, and
  where the configuration lives.
- `watcher`: debouncing filesystem events and merging changed paths in `Path` order.
- `session`: the state of a working session and its transitions, keyboard shortcuts included.
- `perf`, `toast`, `ui`: frame timing statistics, notifications, and the widget vocabulary.

Reading the disk, the clipboard, threads, time and the window are left to `app/`, an egui
program that hands the library plain values and performs what it decides. Where the tree
must read directories in the middle of an operation (checking a directory loads its subtree
twenty levels deep, changing the ignore patterns re-reads the expanded directories, restoring
a selection reads the directories it expanded), the library takes the reading as a function
argument, and its contracts say what is done with whatever that function returns.
