# apocalyptosis

The game rules of Apocalyptosis, a strategy game about running a secret cult,
as a Verus library whose functions carry proved contracts.

- `src/` is the verified library: suspicion meters and their events, the game
  clock and pausing, funds and the budget ledger, followers and recruitment,
  bases, discoveries, achievements, dialogs, and the framing and numbering of
  save files. Calls into `rand`, `indexmap` and `bevy_platform` go through a
  few trusted wrappers whose contracts are documented where they stand.
- `tests/` runs the library on concrete values.
- `app/` is ordinary Rust around the library: files on disk, configuration,
  Fluent message files, serde forms of the data files, and the
  floating-point arithmetic of modifiers, recruitment rates and suspicion
  draws.
