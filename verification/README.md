# tenebrous_dicebot

A dice-rolling library for tabletop role-playing games, as used by a Matrix
chat bot, verified with Verus.

- `src/parser.rs`, `src/dice.rs`: expressions of amounts (`8 + myvar - 2`)
  and their totals, with variables looked up by name.
- `src/cofd/`: Chronicles of Darkness dice pools: modifiers grammar,
  exploding and rote dice, successes, and the pool's result text.
- `src/cthulhu/`: Call of Cthulhu percentile rolls with bonus and penalty
  dice, skill advancement rolls, and their grammar.
- `src/basic/`: basic dice expressions such as `2d8 + 4d6 - 3`.
- `src/commands/`: reading `!command input` from a message, each command's
  input grammar, which commands need a secure room, and the HTML responses.
- `src/bot.rs`: which lines of a message are commands, the summary of
  several results, message age and room membership decisions.
- `src/variables.rs`, `src/help.rs`, `src/models.rs`, `src/config.rs`,
  `src/state.rs`, `src/context.rs`: variable assignment grammar, help texts,
  accounts, configuration defaults, bot state and room security.
- `src/db/`: key layouts and number encodings of the key-value store, the
  batches of the data migrations (variable counts per room and user, and
  the move to the newer key layout, all or nothing), the SQL of a schema
  migration, and the variables of a user in a room (at most 100).
- `src/text.rs`, `src/rng.rs`: character classes, trimming, text order and
  sorting, decimal output; the random number generators behind real rolls.

`app/main.rs` is a command-line front end that runs the commands of a
message against a `RoomVariables` store held in memory, or prints the settings of a
configuration file.
