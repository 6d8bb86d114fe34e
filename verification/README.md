# usmm

A mod manager for a game whose mods are listed in a `ModsDB.ini` file. The
library in `src/` holds the database logic with its proofs; `app/` is the
SDL2 + Dear ImGui desktop front end that opens, edits and saves the file.

Layout of `src/`:

- `text.rs` – strings as character sequences: quote trimming, prefixes,
  substrings, decimal numbers, path separators.
- `unicode.rs` – the Unicode properties that std computes (numeric digits,
  upper and lower case).
- `ini.rs` – the `configparser` document as a map of sections, and the calls
  made into it.
- `cheats.rs` – the known cheat codes.
- `load.rs` – what a database lists: active mods, enabled cheats, installed
  mods, and a mod's title.
- `keys.rs` – how keys are spelled when the database is saved.
- `render.rs` – the text of a saved database.
- `manager.rs` – the manager state and its operations (open, toggle, import,
  save).
- `laws.rs` – properties across operations: saving and reading back gives the
  same active mods (for ids that neither start nor end with a quote) and the
  same cheats (when every saved cheat is a known one, and the old `[codes]`
  stored its list keys in lower case and held no known cheat under any other
  key); saving twice equals saving once; saving touches only `[main]` and
  `[codes]`.
- `cpkredir.rs` – the loader configuration that the console build creates at
  start-up when it is missing: its default text, the decision, the report.
- `picker.rs`, `ids.rs`, `about.rs` – the picked-file slot of the browser
  build, fresh mod ids, and the texts of the user interface.
