# Yeti3 Cleaner

A disk cleaner for macOS that lives in the menu bar. It scans, asks what to clean, runs the
cleaner, keeps a history of what was cleaned, and shows it.

* `src/` is the library. Everything in it is verified with Verus: the history and its queries,
  the document with the latest result, the steps of a database migration, the question after a
  scan and the command line that follows from the answer, the controller of the tray icon as a
  state machine, the settings, and the contents and geometry of all windows.
* `app/` is the application around it: SQLite, files, processes and AppKit.
* `tests/` runs the library, among other things against SQLite, `serde_json` and the standard
  library.

| Module | What it holds |
| --- | --- |
| `history` | rows, the store, queries, rankings, the order of sums, the result document, the migration, laws |
| `tray` | the controller, its signs and menu, laws |
| `selection`, `report`, `lines` | the question after a scan, reports, lines of text |
| `settings` | the settings, their window, laws |
| `windows` | the windows with the result, the statistics and the program |
| `amounts`, `arguments`, `clock`, `convert`, `paths`, `text` | small tools |
| `json`, `unambiguous` | values of `serde_json` as text, and why that text can be read back |

What is taken on trust is small and marked in the source: the system clock, the home directory,
`String::push`, and the values of `serde_json` with the text they are written as.
