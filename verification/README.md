# Just One

A server for the word game *Just One*. One player guesses a word from the hints of the others;
hints that were given twice are stricken before the guess.

- `src/` holds the rules, verified with Verus: a game moves from state to state by events
  (`justone`, and `logic` for players with channels of their own), the server knows its tables and
  who sits there (`server`), messages become JSON (`wire`), and the terminal is read and written
  (`cli`). What holds of every game and every server is proved in `laws`, `logic_laws` and
  `server_laws`.
- `app/` runs it: web sockets, the terminal, word lists, pauses and logging.
- `tests/` plays games on concrete values.

The program reads `include/index.html`, `include/favicon.ico` and the word lists under `include/`
from the directory it is started in. `--use_cli` plays on the terminal; a line is a player's number
and a command:

| line         | meaning                                            |
|--------------|----------------------------------------------------|
| `1 s oak`    | player 1 hands in the hint `oak`                   |
| `1 f 0 2`    | player 1 strikes the hints of players 0 and 2      |
| `0 g tree`   | player 0 guesses `tree`; an empty word passes      |
| `1 a true`   | player 1 accepts the guess; `false` rejects it     |
| `1 r`        | player 1 asks what has happened so far             |
