# cursed-tetris

A terminal Tetris with power-ups (bomb, paintball, roller), a settings
screen and an optional shared leaderboard in SQLite, written in Verus.

- `src/` is the game's logic, verified: the board and the falling pieces
  (`state`, `piece`), the timed tasks that drive gravity and the power-up
  effects (`task`, `powerup`), the screens as state machines (`screen`),
  the settings (`config`), the command line (`args`) and the leaderboard
  rules (`leaderboard`). Contracts are stated over spec functions such as
  `State::wf`, `landing_handled`, `screen_updated` and `ran_due`, and laws
  that span several calls are public proof functions (`lemma_*`).
- `app/` is the program around it: the terminal loop (crossterm), the
  drawing (ratatui, tui-big-text), the settings file (serde_json, dirs),
  the leaderboard database (rusqlite) and the level curves, which use
  floating point.
- `tests/` runs the library on concrete games, keys and arguments.

Run it with `cursed-tetris`, or with `--online DATABASE --id PLAYER_ID` for
the shared leaderboard (both together).
