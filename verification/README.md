# soundbot

A Discord sound-board bot whose decisions are verified with Verus.

- `src/` — the verified library:
  - `args` — command arguments as the command framework splits them;
  - `text` — white space, word splitting, joining, lower-casing;
  - `number` — reading an `i8` the way `i8::from_str` does;
  - `sounds` — sound file paths, the text order, sorting, the sound list;
  - `manage` — `delete`, `rename`, `upload`, `stats`;
  - `bounce` — `el3n` / `el3no`: the target, the options, and the bounce
    state machine;
  - `player` — `join`, `leave`, and the `play` state machine;
  - `events`, `reaction`, `watch` — the gateway handler's decisions;
  - `config` — reading a setting from the JSON configuration.
- `app/` — the program around it: serenity commands and events, songbird
  voice, file and network I/O.
- `tests/` — tests of the library.
