# ClipBoardX

A clipboard history manager for Windows: it records what is copied (text, images, file
lists), keeps it in a SQLite database, and shows it in a panel opened by a global hotkey
(Alt+V by default), from which a record can be written back to the clipboard and pasted.

## Layout

- `src/` — the library, verified with Verus. It holds the logic of the program:
  - `clipboard/` — content types and their names, the content hash, the capture decision
    (write-back marker, ignore rules with wildcard patterns), the record built from a
    capture, and what a write-back puts on the clipboard;
  - `storage/` — the record model, the SQL text and parameters of a history search, how
    many records a trim removes;
  - `app.rs` — the application state and the outcome of deleting, clearing and
    favouriting records, and the storage warnings of the unlimited mode;
  - `hotkey/` — the hotkey registration state and the display name of a key combination;
  - `ui/` — list lines, previews, placement of the panel and the preview window, row hit
    zones and colours, and the settings form;
  - `tray.rs`, `win32.rs` — tray icon decisions, Win32 value types and word packing;
  - `utils/` — settings and text helpers (UTF-16, decimal formatting).
- `tests/` — tests of the library on concrete values.
- `app/` — the Windows program around the library: the message loop, windows and
  controls, clipboard access, the SQLite store and the settings file.
