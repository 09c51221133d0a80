# dash-evo-tool

The core of a Dash Platform wallet backend, written and proved in Verus.

`src/` is the library. It performs no input or output: an operation that needs the network, a
wallet or the database is a chain of steps. Each step says what to do next and is resumed with what
came of it, and contracts say what follows from every outcome.

- `tasks`, `run_task`: the tasks of the backend, which of them wait for the light client, and how
  they are run.
- `load_contacts`, with `query`, `pagination`, `contacts`, `derivation`, `cipher` and
  `private_data`: loading the contacts of an identity, with the notes about them.
- `disable_keys`: disabling keys of an identity without leaving one of its roles unserved.
- `claim_tokens`: claiming tokens.
- `shielded`, `commitment_tree`, `sql`: the statements on shielded notes, nullifier syncs and the
  commitment tree, and how their answers are read. `note_table` is a model of what the statements
  make of their tables; the tests run the statements on SQLite to show that it fits.

Functions named `law_...` state what holds of the operations together.

`app/` is ordinary Rust around the library: SQLite in `database`, the platform's SDK in `platform`,
and the loops that carry out the steps.
