# Triversi

Triversi is a Reversi-like game for three players on a triangular board.

- `src/` is the verified library: the board and its rules (`board`), the game as a
  state machine over abstract actions (`game`, with its laws in `game/laws.rs`), the
  key bindings and what each key does (`key_binding`, `tui_app`), the players' colors
  (`color_config`), the buttons and outlined cells of the graphical front end
  (`gui_app`), the character picture of the board (`board_display`) and the texts
  that the terminal screen shows (`render`, `text`).
- `app/` is the terminal front end: command-line arguments, reading keys, and drawing
  the boxes that the library computes.
- `tests/` runs the library on concrete games and pictures.
