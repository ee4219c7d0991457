# claw-expense

A local ledger for CNY: income, expenses, refunds linked to their expense, and purchases in a
foreign currency that wait for the amount in CNY that the bank charges. Amounts are integers
throughout; nothing is rounded.

- `src/` is the ledger itself, as a library whose contracts are proved with Verus. `ledger.rs`
  says what a ledger holds and what always holds of it. `store.rs`, `pending.rs` and `query.rs`
  change it and answer questions, and `command.rs` ties both to commands. `laws.rs`,
  `soundness.rs` and `accounting.rs` state what holds of all changes together.
- `app/` is the program around it: the command line, the SQLite file, backups, exports, and the
  look for newer releases.
- `tests/` runs the library.
