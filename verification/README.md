# melody

The verified core of Melody, a Discord bot: Connect Four, dice rolls, feeds
(YouTube and Twitter), emoji statistics, join and grantable roles, plugins,
the CleverBot session, the music queue, command blueprints, the operator
console, user mentions and the chessboard picture.

Every function in `src/` that has a body Verus reads is checked against its
`requires`/`ensures`. The calls out of the library stand behind small
trusted wrappers (`#[verifier::external_body]`), whose contracts say no more
than the called code documents:

- outside crates: `url` (parsing, host and fragment), `regex` (capture
  groups and match spans), `rand` (a number in a range, slice shuffling),
  `ahash` (message hashes, the build ID) and `md5`;
- the standard library, where Verus gives it no specification:
  `String::push`, `str::to_lowercase`, `char::to_uppercase`, the `{:?}`
  forms of strings and characters, and reading the system clock.

Layout:

- `src/` — the library, one module per feature.
- `tests/` — tests of the library on concrete values.
- `app/` — a console program: it reads console commands from standard
  input, runs them with `console_step` and carries out what they ask for.
