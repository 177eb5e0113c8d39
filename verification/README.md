# game_launcher

A portable game launcher: a list of games (programs, `.lnk` / `.url`
shortcuts and URIs) kept in `games.json` next to the executable, with icons,
drag-and-drop reordering and a small iced window.

- `src/` is the library, verified with Verus: text rules, shortcut
  resolution, the game list and its operations, and the window's decisions
  (selection, dragging, dialogs, when a game may start).
- `app/` is the program around it: file and process I/O, JSON, logging and
  the iced window, which hand plain values to the library and act on what it
  decides.
- `tests/` exercise the library on concrete values.
