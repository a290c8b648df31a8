# orbitfm

A three-pane terminal file manager: shortcuts and volumes on the left, the
file list in the middle, a preview on the right.

- `src/` is the library; each of its functions carries a proved contract. It holds the browser's state
  (`app`), what each key does (`input`), how a folder's entries become the
  file list (`listing`), the preview texts, shortcut and volume lists
  (`fs_utils`), human-readable sizes (`size`), and the texts the panes show
  (`ui`). `laws` states properties that span several commands. The library
  does no input or output: a command returns an `Action`, and the program
  hands back what the file system answered.
- `app/` is the program: terminal set-up with crossterm, drawing with
  ratatui, and the file-system work that the actions ask for.
- `tests/` exercises the library on concrete values.
